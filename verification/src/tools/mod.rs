//! Tools and their registry.
//!
//! The agent sees one flat list of [`ToolSpec`]s. A [`ToolRegistry`] merges tools
//! from three sources (built-ins, MCP servers, and skills), all behind one type, so
//! that they are indistinguishable to the model.
pub mod builtin;
pub mod search;

use vstd::prelude::*;

use crate::error::{outcome, Error, ErrorModel};
use crate::json::{Json, JsonModel};
use crate::paths::{
    is_rooted, is_rooted_path, join_on, joined_on, kept, law_parts_on_joined, parts_on, slashed,
    slashed_of,
};
use crate::provider::types::{ToolSpec, ToolSpecModel};
use crate::skills::{SkillModel, SkillRegistry};
use crate::text::{
    cat2, comes_before, lemma_precedes_irreflexive, lemma_precedes_total,
    lemma_precedes_transitive, precedes, same, split, split_of, views,
};
use crate::tools::builtin::{
    edit_file_of, edit_file_spec, list_dir_of, list_dir_spec, path_or_unknown, read_file_of,
    read_file_spec, register_all, run_shell_of, run_shell_spec, search_of, search_spec, summary_path,
    use_skill_of, use_skill_spec, with_builtin_tools, write_file_of, write_file_spec,
};

verus! {

/// Execution context handed to every tool.
#[derive(Debug)]
pub struct ToolContext {
    /// Project root; all file paths are resolved under it.
    pub root: String,
    /// Whether paths are those of Windows.
    pub windows: bool,
}

/// The model of a [`ToolContext`].
#[verifier::ext_equal]
pub struct ContextModel {
    pub root: Seq<char>,
    pub windows: bool,
}

impl View for ToolContext {
    type V = ContextModel;

    open spec fn view(&self) -> ContextModel {
        ContextModel { root: self.root@, windows: self.windows }
    }
}

/// A part of `rel` leads upwards.
pub open spec fn climbs(rel: Seq<char>, windows: bool) -> bool {
    split_of(slashed_of(rel, windows), '/').contains(".."@)
}

/// `rel` below `root`, where it stays there.
pub open spec fn safely_joined(root: Seq<char>, rel: Seq<char>, windows: bool) -> Result<
    Seq<char>,
    ErrorModel,
> {
    if is_rooted_path(rel, windows) {
        Err(ErrorModel::Tool("absolute paths not allowed: "@ + rel))
    } else if climbs(rel, windows) {
        Err(ErrorModel::Tool("path escapes project root: "@ + rel))
    } else {
        Ok(joined_on(root, rel, windows))
    }
}

/// Join `rel` under `root`, rejecting absolute paths and `..` escapes.
pub fn safe_join(root: &str, rel: &str, windows: bool) -> (r: Result<String, Error>)
    ensures
        outcome(r) == safely_joined(root@, rel@, windows),
{
    if is_rooted(rel, windows) {
        return Err(Error::Tool(cat2("absolute paths not allowed: ", rel)));
    }
    let parts = split(slashed(rel, windows).as_str(), '/');
    let ghost all = views(parts@);
    let mut i: usize = 0;
    while i < parts.len()
        invariant
            all == views(parts@),
            all == split_of(slashed_of(rel@, windows), '/'),
            !is_rooted_path(rel@, windows),
            i <= parts@.len(),
            forall|k: int| 0 <= k < i ==> all[k] != ".."@,
        decreases parts@.len() - i,
    {
        assert(all[i as int] == parts@[i as int]@);
        if same(parts[i].as_str(), "..") {
            assert(climbs(rel@, windows));
            return Err(Error::Tool(cat2("path escapes project root: ", rel)));
        }
        i += 1;
    }
    Ok(join_on(root, rel, windows))
}

/// `path` lies at or below `root`: its parts are those of the root and then others, none
/// of which leads upwards.
pub open spec fn is_below(root: Seq<char>, path: Seq<char>, windows: bool) -> bool {
    let top = parts_on(root, windows);
    let parts = parts_on(path, windows);
    &&& parts.len() >= top.len()
    &&& parts.take(top.len() as int) == top
    &&& forall|i: int| top.len() <= i < parts.len() ==> (#[trigger] parts[i]) != ".."@
}

/// A path that is joined safely stays below the root, on every platform.
pub proof fn law_stays_below_root(root: Seq<char>, rel: Seq<char>, windows: bool)
    ensures
        match safely_joined(root, rel, windows) {
            Ok(path) => is_below(root, path, windows),
            Err(_) => is_rooted_path(rel, windows) || climbs(rel, windows),
        },
{
    if !is_rooted_path(rel, windows) && !climbs(rel, windows) {
        law_parts_on_joined(root, rel, windows);
        let top = parts_on(root, windows);
        let parts = parts_on(joined_on(root, rel, windows), windows);
        let own = parts_on(rel, windows);
        assert(parts.take(top.len() as int) =~= top);
        lemma_kept_contained(split_of(slashed_of(rel, windows), '/'));
        assert forall|i: int| top.len() <= i < parts.len() implies (#[trigger] parts[i])
            != ".."@ by {
            let k = i - top.len();
            assert(parts[i] == own[k]);
            assert(split_of(slashed_of(rel, windows), '/').contains(own[k]));
        }
    }
}

proof fn lemma_kept_contained(pieces: Seq<Seq<char>>)
    ensures
        forall|i: int| 0 <= i < kept(pieces).len() ==> pieces.contains(#[trigger] kept(pieces)[i]),
    decreases pieces.len(),
{
    if pieces.len() > 0 {
        let t = pieces.drop_last();
        lemma_kept_contained(t);
        assert forall|i: int| 0 <= i < kept(pieces).len() implies pieces.contains(
            #[trigger] kept(pieces)[i],
        ) by {
            if i < kept(t).len() {
                assert(kept(pieces)[i] == kept(t)[i]);
                let k = choose|k: int| 0 <= k < t.len() && t[k] == kept(t)[i];
                assert(pieces[k] == kept(t)[i]);
            } else {
                assert(pieces[pieces.len() - 1] == kept(pieces)[i]);
            }
        }
    }
}

/// A tool of an MCP server.
#[derive(Debug)]
pub struct McpTool {
    /// Which of the connected servers has the tool.
    pub server: usize,
    pub full_name: String,
    pub bare_name: String,
    pub spec: ToolSpec,
}

/// The model of an [`McpTool`].
#[verifier::ext_equal]
pub struct McpToolModel {
    pub server: usize,
    pub full_name: Seq<char>,
    pub bare_name: Seq<char>,
    pub spec: ToolSpecModel,
}

impl View for McpTool {
    type V = McpToolModel;

    open spec fn view(&self) -> McpToolModel {
        McpToolModel {
            server: self.server,
            full_name: self.full_name@,
            bare_name: self.bare_name@,
            spec: self.spec@,
        }
    }
}

/// A callable tool.
#[derive(Debug)]
pub enum Tool {
    ReadFile,
    ListDir,
    Search,
    WriteFile,
    EditFile,
    RunShell,
    /// Loads a skill's instructions.
    UseSkill(SkillRegistry),
    Mcp(McpTool),
}

/// The model of a [`Tool`].
#[verifier::ext_equal]
pub enum ToolModel {
    ReadFile,
    ListDir,
    Search,
    WriteFile,
    EditFile,
    RunShell,
    UseSkill(Seq<SkillModel>),
    Mcp(McpToolModel),
}

impl View for Tool {
    type V = ToolModel;

    open spec fn view(&self) -> ToolModel {
        match *self {
            Tool::ReadFile => ToolModel::ReadFile,
            Tool::ListDir => ToolModel::ListDir,
            Tool::Search => ToolModel::Search,
            Tool::WriteFile => ToolModel::WriteFile,
            Tool::EditFile => ToolModel::EditFile,
            Tool::RunShell => ToolModel::RunShell,
            Tool::UseSkill(skills) => ToolModel::UseSkill(skills@),
            Tool::Mcp(t) => ToolModel::Mcp(t@),
        }
    }
}

impl ToolModel {
    /// Schema advertised to the model.
    pub open spec fn spec(self) -> ToolSpecModel {
        match self {
            ToolModel::ReadFile => read_file_of(),
            ToolModel::ListDir => list_dir_of(),
            ToolModel::Search => search_of(),
            ToolModel::WriteFile => write_file_of(),
            ToolModel::EditFile => edit_file_of(),
            ToolModel::RunShell => run_shell_of(),
            ToolModel::UseSkill(_) => use_skill_of(),
            ToolModel::Mcp(t) => t.spec,
        }
    }

    pub open spec fn name(self) -> Seq<char> {
        self.spec().name
    }

    /// Whether running this can change the workspace. MCP tools are opaque, so they
    /// count as able to.
    pub open spec fn mutating(self) -> bool {
        match self {
            ToolModel::WriteFile => true,
            ToolModel::EditFile => true,
            ToolModel::RunShell => true,
            ToolModel::Mcp(_) => true,
            _ => false,
        }
    }

    /// Short human summary of a specific call.
    pub open spec fn summary(self, args: JsonModel) -> Seq<char> {
        match self {
            ToolModel::WriteFile => "write_file "@ + summary_path(args, "path"@),
            ToolModel::EditFile => "edit_file "@ + summary_path(args, "path"@),
            ToolModel::RunShell => summary_path(args, "cmd"@),
            ToolModel::Mcp(t) => t.full_name,
            _ => self.name(),
        }
    }
}

impl Tool {
    /// Schema advertised to the model.
    pub fn spec(&self) -> (r: ToolSpec)
        ensures
            r@ == self@.spec(),
    {
        match self {
            Tool::ReadFile => read_file_spec(),
            Tool::ListDir => list_dir_spec(),
            Tool::Search => search_spec(),
            Tool::WriteFile => write_file_spec(),
            Tool::EditFile => edit_file_spec(),
            Tool::RunShell => run_shell_spec(),
            Tool::UseSkill(_) => use_skill_spec(),
            Tool::Mcp(t) => t.spec.clone(),
        }
    }

    /// Whether running this can change the workspace (gates permission).
    pub fn mutating(&self) -> (r: bool)
        ensures
            r == self@.mutating(),
    {
        match self {
            Tool::WriteFile => true,
            Tool::EditFile => true,
            Tool::RunShell => true,
            Tool::Mcp(_) => true,
            _ => false,
        }
    }

    /// Short human summary of a specific call, for the permission prompt.
    pub fn summarize(&self, args: &Json) -> (r: String)
        ensures
            r@ == self@.summary(args@),
    {
        match self {
            Tool::WriteFile => cat2("write_file ", path_or_unknown(args, "path").as_str()),
            Tool::EditFile => cat2("edit_file ", path_or_unknown(args, "path").as_str()),
            Tool::RunShell => path_or_unknown(args, "cmd"),
            Tool::Mcp(t) => t.full_name.clone(),
            _ => self.spec().name,
        }
    }
}

/// The tools with `t` among them, at its place in the order of names. It takes the
/// place of a tool of the same name.
pub open spec fn registered(s: Seq<ToolModel>, t: ToolModel) -> Seq<ToolModel>
    decreases s.len(),
{
    if s.len() == 0 || precedes(t.name(), s[0].name()) {
        seq![t] + s
    } else if s[0].name() == t.name() {
        seq![t] + s.skip(1)
    } else {
        seq![s[0]] + registered(s.skip(1), t)
    }
}

/// The tool with the given name.
pub open spec fn tool_named(s: Seq<ToolModel>, name: Seq<char>) -> Option<ToolModel>
    decreases s.len(),
{
    if s.len() == 0 {
        None
    } else if s[0].name() == name {
        Some(s[0])
    } else {
        tool_named(s.skip(1), name)
    }
}

/// The tools stand in strictly ascending order of their names.
pub open spec fn in_order(s: Seq<ToolModel>) -> bool {
    forall|i: int, j: int|
        0 <= i < j < s.len() ==> precedes((#[trigger] s[i]).name(), (#[trigger] s[j]).name())
}

/// What is advertised of tools.
pub open spec fn specs_of(s: Seq<ToolModel>) -> Seq<ToolSpecModel> {
    Seq::new(s.len(), |i: int| s[i].spec())
}

/// The six built-in tools alone.
pub open spec fn builtins() -> Seq<ToolModel> {
    with_builtin_tools(Seq::empty())
}

/// Holds every available tool, by name.
#[derive(Debug)]
pub struct ToolRegistry {
    tools: Vec<Tool>,
}

impl View for ToolRegistry {
    type V = Seq<ToolModel>;

    closed spec fn view(&self) -> Seq<ToolModel> {
        views(self.tools@)
    }
}

impl Default for ToolRegistry {
    fn default() -> (r: ToolRegistry)
        ensures
            r@ == Seq::<ToolModel>::empty(),
    {
        let r = ToolRegistry { tools: Vec::new() };
        assert(r@ =~= Seq::empty());
        r
    }
}

/// Where a tool goes: behind the tools whose names precede its own.
proof fn lemma_registered_at(s: Seq<ToolModel>, t: ToolModel, i: int)
    requires
        0 <= i <= s.len(),
        forall|k: int|
            0 <= k < i ==> !precedes(t.name(), (#[trigger] s[k]).name()) && s[k].name() != t.name(),
        i < s.len() ==> precedes(t.name(), s[i].name()) || s[i].name() == t.name(),
    ensures
        i < s.len() && s[i].name() == t.name() ==> registered(s, t) == s.update(i, t),
        i == s.len() || s[i].name() != t.name() ==> registered(s, t) == s.insert(i, t),
    decreases i,
{
    lemma_precedes_irreflexive(t.name());
    if i > 0 {
        let rest = s.skip(1);
        assert forall|k: int| 0 <= k < i - 1 implies !precedes(
            t.name(),
            (#[trigger] rest[k]).name(),
        ) && rest[k].name() != t.name() by {
            assert(rest[k] == s[k + 1]);
        }
        lemma_registered_at(rest, t, i - 1);
        assert(s[0].name() != t.name());
        if i < s.len() && s[i].name() == t.name() {
            assert(seq![s[0]] + rest.update(i - 1, t) =~= s.update(i, t));
        } else {
            assert(seq![s[0]] + rest.insert(i - 1, t) =~= s.insert(i, t));
        }
    } else if s.len() > 0 && s[0].name() == t.name() {
        assert(registered(s, t) =~= s.update(0, t));
    } else {
        assert(registered(s, t) =~= s.insert(0, t));
    }
}

impl ToolRegistry {
    pub fn new() -> (r: ToolRegistry)
        ensures
            r@ == Seq::<ToolModel>::empty(),
    {
        ToolRegistry::default()
    }

    /// Registry pre-loaded with the built-in tools.
    pub fn with_builtins() -> (r: ToolRegistry)
        ensures
            r@ == builtins(),
            in_order(r@),
    {
        let mut r = ToolRegistry::new();
        register_all(&mut r);
        r
    }

    /// Add a tool; it replaces a tool of the same name.
    pub fn register(&mut self, tool: Tool)
        ensures
            final(self)@ == registered(old(self)@, tool@),
            in_order(old(self)@) ==> in_order(final(self)@),
    {
        let ghost before = self@;
        let name = tool.spec().name;
        let mut i: usize = 0;
        let mut known = false;
        while i < self.tools.len()
            invariant_except_break
                !known,
            invariant
                before == self@,
                before == views(self.tools@),
                name@ == tool@.name(),
                i <= self.tools@.len(),
                forall|k: int|
                    0 <= k < i ==> !precedes(tool@.name(), (#[trigger] before[k]).name())
                        && before[k].name() != tool@.name(),
            ensures
                i < self.tools@.len() ==> known || precedes(tool@.name(), before[i as int].name()),
                known ==> i < self.tools@.len() && before[i as int].name() == tool@.name(),
                i < self.tools@.len() && !known ==> before[i as int].name() != tool@.name(),
            decreases self.tools@.len() - i,
        {
            let other = self.tools[i].spec().name;
            assert(before[i as int] == self.tools@[i as int]@);
            if same(other.as_str(), name.as_str()) {
                known = true;
                break;
            }
            if comes_before(name.as_str(), other.as_str()) {
                break;
            }
            i += 1;
        }
        proof {
            lemma_registered_at(before, tool@, i as int);
            if in_order(before) {
                law_register(before, tool@, Seq::empty());
            }
        }
        if known {
            self.tools.set(i, tool);
        } else {
            self.tools.insert(i, tool);
        }
        assert(self@ =~= registered(before, tool@));
    }

    pub fn get(&self, name: &str) -> (r: Option<&Tool>)
        ensures
            match r {
                Some(t) => tool_named(self@, name@) == Some(t@),
                None => tool_named(self@, name@) is None,
            },
    {
        let ghost all = self@;
        let mut i: usize = 0;
        assert(all.skip(0) =~= all);
        while i < self.tools.len()
            invariant
                all == self@,
                all == views(self.tools@),
                i <= self.tools@.len(),
                tool_named(all, name@) == tool_named(all.skip(i as int), name@),
            decreases self.tools@.len() - i,
        {
            assert(all.skip(i as int)[0] == self.tools@[i as int]@);
            assert(all.skip(i as int).skip(1) =~= all.skip(i + 1));
            if same(self.tools[i].spec().name.as_str(), name) {
                return Some(&self.tools[i]);
            }
            i += 1;
        }
        None
    }

    /// Specs for every tool, to send to the provider.
    pub fn specs(&self) -> (r: Vec<ToolSpec>)
        ensures
            views(r@) == specs_of(self@),
    {
        let mut out: Vec<ToolSpec> = Vec::new();
        let mut i: usize = 0;
        while i < self.tools.len()
            invariant
                i <= self.tools@.len(),
                out@.len() == i,
                forall|k: int| 0 <= k < i ==> (#[trigger] out@[k])@ == self.tools@[k]@.spec(),
            decreases self.tools@.len() - i,
        {
            out.push(self.tools[i].spec());
            i += 1;
        }
        assert(views(out@) =~= specs_of(self@));
        out
    }

    pub fn len(&self) -> (r: usize)
        ensures
            r == self@.len(),
    {
        self.tools.len()
    }

    pub fn is_empty(&self) -> (r: bool)
        ensures
            r == (self@.len() == 0),
    {
        self.tools.len() == 0
    }
}

/// A registered tool is found under its name, and what is found under any other
/// name does not change; the order of names is kept.
pub proof fn law_register(s: Seq<ToolModel>, t: ToolModel, name: Seq<char>)
    requires
        in_order(s),
    ensures
        in_order(registered(s, t)),
        tool_named(registered(s, t), name) == (if name == t.name() {
            Some(t)
        } else {
            tool_named(s, name)
        }),
    decreases s.len(),
{
    let r = registered(s, t);
    lemma_precedes_irreflexive(t.name());
    if s.len() == 0 || precedes(t.name(), s[0].name()) {
        assert(r.skip(1) =~= s);
        assert forall|i: int, j: int| 0 <= i < j < r.len() implies precedes(
            (#[trigger] r[i]).name(),
            (#[trigger] r[j]).name(),
        ) by {
            assert(r[j] == s[j - 1]);
            if i > 0 {
                assert(r[i] == s[i - 1]);
            } else if j > 1 {
                assert(precedes(s[0].name(), s[j - 1].name()));
                lemma_precedes_transitive(t.name(), s[0].name(), s[j - 1].name());
            }
        }
    } else if s[0].name() == t.name() {
        assert(r.skip(1) =~= s.skip(1));
        assert forall|i: int, j: int| 0 <= i < j < r.len() implies precedes(
            (#[trigger] r[i]).name(),
            (#[trigger] r[j]).name(),
        ) by {
            assert(r[j] == s[j]);
            assert(precedes(s[i].name(), s[j].name()));
        }
    } else {
        let rest = s.skip(1);
        assert forall|i: int, j: int| 0 <= i < j < rest.len() implies precedes(
            (#[trigger] rest[i]).name(),
            (#[trigger] rest[j]).name(),
        ) by {
            assert(rest[i] == s[i + 1] && rest[j] == s[j + 1]);
        }
        law_register(rest, t, name);
        lemma_precedes_total(s[0].name(), t.name());
        lemma_registered_above(rest, t, s[0].name());
        let m = registered(rest, t);
        assert(r.skip(1) =~= m);
        assert forall|i: int, j: int| 0 <= i < j < r.len() implies precedes(
            (#[trigger] r[i]).name(),
            (#[trigger] r[j]).name(),
        ) by {
            assert(r[j] == m[j - 1]);
            if i > 0 {
                assert(r[i] == m[i - 1]);
            }
        }
    }
}

proof fn lemma_registered_above(s: Seq<ToolModel>, t: ToolModel, low: Seq<char>)
    requires
        forall|i: int| 0 <= i < s.len() ==> precedes(low, (#[trigger] s[i]).name()),
        precedes(low, t.name()),
    ensures
        forall|i: int|
            0 <= i < registered(s, t).len() ==> precedes(low, (#[trigger] registered(s, t)[i]).name()),
    decreases s.len(),
{
    let r = registered(s, t);
    if s.len() == 0 || precedes(t.name(), s[0].name()) {
        assert forall|i: int| 0 <= i < r.len() implies precedes(low, (#[trigger] r[i]).name()) by {
            if i > 0 {
                assert(r[i] == s[i - 1]);
            }
        }
    } else if s[0].name() == t.name() {
        assert forall|i: int| 0 <= i < r.len() implies precedes(low, (#[trigger] r[i]).name()) by {
            if i > 0 {
                assert(r[i] == s[i]);
            }
        }
    } else {
        let rest = s.skip(1);
        assert forall|i: int| 0 <= i < rest.len() implies precedes(
            low,
            (#[trigger] rest[i]).name(),
        ) by {
            assert(rest[i] == s[i + 1]);
        }
        lemma_registered_above(rest, t, low);
        assert forall|i: int| 0 <= i < r.len() implies precedes(low, (#[trigger] r[i]).name()) by {
            if i > 0 {
                assert(r[i] == registered(rest, t)[i - 1]);
            }
        }
    }
}

} // verus!
