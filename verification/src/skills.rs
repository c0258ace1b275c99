//! Shared skills: instruction folders that every agent can use.
//!
//! Skills live in `~/.config/ade/skills/<name>/SKILL.md` (global) and
//! `./.ade/skills/<name>/SKILL.md` (project). Each `SKILL.md` has YAML-ish
//! frontmatter (`name`, `description`) and a body of instructions.
//!
//! Progressive disclosure: only name+description go into the system prompt; the
//! agent calls the `use_skill` tool to pull a skill's full body on demand. Every
//! agent shares the same folder; there are no per-model copies.
use vstd::prelude::*;

use crate::error::{outcome, Error, ErrorModel};
use crate::json::{Json, JsonModel};
use crate::paths::{join, joined};
use crate::text::{
    after_prefix, cat3, find_in, lines, lines_of, opt_view, same, split_at_first, strip_prefix,
    trim, trim_end_char, trim_end_char_of, trim_of, trim_start, trim_start_char,
    trim_start_char_of, trim_start_of, views,
};
use crate::tools::{in_order, registered, Tool, ToolModel, ToolRegistry};

verus! {

#[derive(Debug)]
pub struct Skill {
    pub name: String,
    pub description: String,
    pub dir: String,
    pub body: String,
}

/// The model of a [`Skill`].
#[verifier::ext_equal]
pub struct SkillModel {
    pub name: Seq<char>,
    pub description: Seq<char>,
    pub dir: Seq<char>,
    pub body: Seq<char>,
}

impl View for Skill {
    type V = SkillModel;

    open spec fn view(&self) -> SkillModel {
        SkillModel {
            name: self.name@,
            description: self.description@,
            dir: self.dir@,
            body: self.body@,
        }
    }
}

impl Clone for Skill {
    fn clone(&self) -> (r: Skill)
        ensures
            r@ == self@,
    {
        Skill {
            name: self.name.clone(),
            description: self.description.clone(),
            dir: self.dir.clone(),
            body: self.body.clone(),
        }
    }
}

/// A value of the frontmatter, without blanks and quotes around it.
pub open spec fn field_value(v: Seq<char>) -> Seq<char> {
    trim_end_char_of(trim_start_char_of(trim_of(v), '"'), '"')
}

/// The name and the description that lines of frontmatter give; the last line of
/// each kind counts.
pub open spec fn fields(lines: Seq<Seq<char>>, fallback: Seq<char>) -> (Seq<char>, Seq<char>)
    decreases lines.len(),
{
    if lines.len() == 0 {
        (fallback, Seq::empty())
    } else {
        let before = fields(lines.drop_last(), fallback);
        match after_prefix(lines.last(), "name:"@) {
            Some(v) => (field_value(v), before.1),
            None => match after_prefix(lines.last(), "description:"@) {
                Some(v) => (before.0, field_value(v)),
                None => before,
            },
        }
    }
}

/// The name, the description and the body that a `SKILL.md` gives.
pub open spec fn skill_md(text: Seq<char>, fallback: Seq<char>) -> (
    Seq<char>,
    Seq<char>,
    Seq<char>,
) {
    let plain = (fallback, Seq::empty(), trim_of(text));
    match after_prefix(text, "---"@) {
        Some(after) => match find_in(after, "\n---"@) {
            Some(end) => {
                let f = fields(lines_of(after.take(end)), fallback);
                let rest = after.skip(end + "\n---"@.len());
                (f.0, f.1, trim_start_of(trim_start_char_of(rest, '-')))
            },
            None => plain,
        },
        None => plain,
    }
}

fn unquoted(v: &str) -> (r: String)
    ensures
        r@ == field_value(v@),
{
    trim_end_char(trim_start_char(trim(v).as_str(), '"').as_str(), '"')
}

/// Parse a `SKILL.md` into (name, description, body). `name` falls back to the
/// directory name when frontmatter omits it.
pub fn parse_skill_md(text: &str, fallback_name: &str) -> (r: (String, String, String))
    ensures
        (r.0@, r.1@, r.2@) == skill_md(text@, fallback_name@),
{
    if let Some(after) = strip_prefix(text, "---") {
        let (front, rest) = split_at_first(after.as_str(), "\n---");
        if let Some(rest) = rest {
            let mut name = fallback_name.to_owned();
            let mut description = String::new();
            let split = lines(front.as_str());
            let ghost all = views(split@);
            let mut i: usize = 0;
            assert(all.take(0) =~= Seq::empty());
            while i < split.len()
                invariant
                    all == views(split@),
                    i <= split@.len(),
                    (name@, description@) == fields(all.take(i as int), fallback_name@),
                decreases split@.len() - i,
            {
                assert(all.take(i + 1).drop_last() =~= all.take(i as int));
                assert(all.take(i + 1).last() == split@[i as int]@);
                if let Some(v) = strip_prefix(split[i].as_str(), "name:") {
                    name = unquoted(v.as_str());
                } else if let Some(v) = strip_prefix(split[i].as_str(), "description:") {
                    description = unquoted(v.as_str());
                }
                i += 1;
            }
            assert(all.take(i as int) =~= all);
            let body = trim_start(trim_start_char(rest.as_str(), '-').as_str());
            return (name, description, body);
        }
    }
    (fallback_name.to_owned(), String::new(), trim(text))
}

/// A folder below a skill directory, as it was found.
#[derive(Debug)]
pub struct SkillFolder {
    /// The path of the folder.
    pub dir: String,
    /// The name of the folder.
    pub name: String,
    /// What its `SKILL.md` says, where it has one that can be read.
    pub text: Option<String>,
}

/// The model of a [`SkillFolder`].
#[verifier::ext_equal]
pub struct SkillFolderModel {
    pub dir: Seq<char>,
    pub name: Seq<char>,
    pub text: Option<Seq<char>>,
}

impl View for SkillFolder {
    type V = SkillFolderModel;

    open spec fn view(&self) -> SkillFolderModel {
        SkillFolderModel { dir: self.dir@, name: self.name@, text: opt_view(self.text) }
    }
}

impl SkillFolderModel {
    /// The skill in a folder.
    pub open spec fn skill(self) -> Option<SkillModel> {
        match self.text {
            Some(text) => {
                let md = skill_md(text, self.name);
                Some(SkillModel { name: md.0, description: md.1, dir: self.dir, body: md.2 })
            },
            None => None,
        }
    }
}

/// The skills but for the one with the given name.
pub open spec fn without_name(s: Seq<SkillModel>, name: Seq<char>) -> Seq<SkillModel>
    decreases s.len(),
{
    if s.len() == 0 {
        s
    } else if s.last().name == name {
        without_name(s.drop_last(), name)
    } else {
        without_name(s.drop_last(), name).push(s.last())
    }
}

/// The skills after a further folder: its skill goes to the end and takes the place
/// of one of the same name.
pub open spec fn scanned(s: Seq<SkillModel>, folder: SkillFolderModel) -> Seq<SkillModel> {
    match folder.skill() {
        Some(skill) => without_name(s, skill.name).push(skill),
        None => s,
    }
}

/// The skills after further folders, in order.
pub open spec fn scanned_all(s: Seq<SkillModel>, folders: Seq<SkillFolderModel>) -> Seq<SkillModel>
    decreases folders.len(),
{
    if folders.len() == 0 {
        s
    } else {
        scanned(scanned_all(s, folders.drop_last()), folders.last())
    }
}

/// The first skill with the given name.
pub open spec fn skill_named(s: Seq<SkillModel>, name: Seq<char>) -> Option<SkillModel>
    decreases s.len(),
{
    if s.len() == 0 {
        None
    } else if s[0].name == name {
        Some(s[0])
    } else {
        skill_named(s.skip(1), name)
    }
}

/// The lines that advertise skills.
pub open spec fn advertisement(s: Seq<SkillModel>) -> Seq<char>
    decreases s.len(),
{
    if s.len() == 0 {
        "Available skills (call use_skill with the name to load full instructions):\n"@
    } else {
        advertisement(s.drop_last()) + "- "@ + s.last().name + ": "@ + s.last().description
            + "\n"@
    }
}

/// The instructions of a skill, as the agent gets them.
pub open spec fn instructions(skill: SkillModel) -> Seq<char> {
    "# Skill: "@ + skill.name + "\nDirectory: "@ + skill.dir + "\n\n"@ + skill.body
}

/// What the `use_skill` tool returns.
pub open spec fn used(s: Seq<SkillModel>, args: JsonModel) -> Result<Seq<char>, ErrorModel> {
    match args.at("name"@).text() {
        Some(name) => match skill_named(s, name) {
            Some(skill) => Ok(instructions(skill)),
            None => Err(ErrorModel::Tool("unknown skill '"@ + name + "'"@)),
        },
        None => Err(ErrorModel::Tool("use_skill: missing 'name'"@)),
    }
}

/// The directory of the global skills.
pub open spec fn global_dir_of(config_dir: Seq<char>) -> Seq<char> {
    joined(joined(config_dir, "ade"@), "skills"@)
}

/// The directory of a project's skills.
pub open spec fn project_dir_of(project_root: Seq<char>) -> Seq<char> {
    joined(joined(project_root, ".ade"@), "skills"@)
}

/// The skills that are discovered: the global ones, and then the project's own.
pub open spec fn discovered(
    global: Seq<SkillFolderModel>,
    project: Seq<SkillFolderModel>,
) -> Seq<SkillModel> {
    scanned_all(scanned_all(Seq::empty(), global), project)
}

/// The directory of the global skills.
pub fn global_dir(config_dir: &str) -> (r: String)
    ensures
        r@ == global_dir_of(config_dir@),
{
    join(join(config_dir, "ade").as_str(), "skills")
}

/// The directory of a project's skills.
pub fn project_dir(project_root: &str) -> (r: String)
    ensures
        r@ == project_dir_of(project_root@),
{
    join(join(project_root, ".ade").as_str(), "skills")
}

/// Holds all discovered skills and serves the `use_skill` tool.
#[derive(Debug)]
pub struct SkillRegistry {
    skills: Vec<Skill>,
}

impl View for SkillRegistry {
    type V = Seq<SkillModel>;

    closed spec fn view(&self) -> Seq<SkillModel> {
        views(self.skills@)
    }
}

impl Clone for SkillRegistry {
    fn clone(&self) -> (r: SkillRegistry)
        ensures
            r@ == self@,
    {
        let r = SkillRegistry { skills: self.skills.clone() };
        assert(r@ =~= self@);
        r
    }
}

impl SkillRegistry {
    /// The skills in the folders below the global skill directory and those below
    /// the project's. Project skills override same-named global skills.
    pub fn discover(global: &Vec<SkillFolder>, project: &Vec<SkillFolder>) -> (r: SkillRegistry)
        ensures
            r@ == discovered(views(global@), views(project@)),
            names_differ(r@),
    {
        proof {
            law_names_differ(Seq::empty(), views(global@));
            law_names_differ(scanned_all(Seq::empty(), views(global@)), views(project@));
        }
        let mut skills: Vec<Skill> = Vec::new();
        assert(views(skills@) =~= Seq::empty());
        Self::scan_dir(global, &mut skills);
        Self::scan_dir(project, &mut skills);
        SkillRegistry { skills }
    }

    /// Add the skills in the folders of one directory.
    pub fn scan_dir(folders: &Vec<SkillFolder>, out: &mut Vec<Skill>)
        ensures
            views(final(out)@) == scanned_all(views(old(out)@), views(folders@)),
    {
        let ghost start = views(out@);
        let ghost all = views(folders@);
        let mut i: usize = 0;
        assert(all.take(0) =~= Seq::empty());
        while i < folders.len()
            invariant
                all == views(folders@),
                i <= folders@.len(),
                views(out@) == scanned_all(start, all.take(i as int)),
            decreases folders@.len() - i,
        {
            assert(all.take(i + 1).drop_last() =~= all.take(i as int));
            assert(all.take(i + 1).last() == folders@[i as int]@);
            let folder = &folders[i];
            if let Some(text) = &folder.text {
                let (name, description, body) = parse_skill_md(
                    text.as_str(),
                    folder.name.as_str(),
                );
                let ghost before = views(out@);
                let mut kept = keep_others(out, name.as_str());
                let skill = Skill { name, description, dir: folder.dir.clone(), body };
                kept.push(skill);
                assert(views(kept@) =~= without_name(before, skill@.name).push(skill@));
                *out = kept;
            }
            i += 1;
        }
        assert(all.take(i as int) =~= all);
    }

    pub fn is_empty(&self) -> (r: bool)
        ensures
            r == (self@.len() == 0),
    {
        self.skills.len() == 0
    }

    pub fn list(&self) -> (r: &[Skill])
        ensures
            views(r@) == self@,
    {
        self.skills.as_slice()
    }

    /// System-prompt fragment advertising available skills (name + description).
    pub fn system_prompt(&self) -> (r: Option<String>)
        ensures
            opt_view(r) == (if self@.len() == 0 {
                None
            } else {
                Some(advertisement(self@))
            }),
    {
        if self.skills.len() == 0 {
            return None;
        }
        let ghost all = views(self.skills@);
        let mut s =
            "Available skills (call use_skill with the name to load full instructions):\n".to_owned();
        let mut i: usize = 0;
        assert(all.take(0) =~= Seq::empty());
        while i < self.skills.len()
            invariant
                all == views(self.skills@),
                i <= self.skills@.len(),
                s@ == advertisement(all.take(i as int)),
            decreases self.skills@.len() - i,
        {
            assert(all.take(i + 1).drop_last() =~= all.take(i as int));
            assert(all.take(i + 1).last() == self.skills@[i as int]@);
            s.append("- ");
            s.append(self.skills[i].name.as_str());
            s.append(": ");
            s.append(self.skills[i].description.as_str());
            s.append("\n");
            i += 1;
        }
        assert(all.take(i as int) =~= all);
        Some(s)
    }

    /// Register the `use_skill` tool, where there is any skill to use.
    pub fn register_tool(&self, reg: &mut ToolRegistry)
        ensures
            final(reg)@ == (if self@.len() == 0 {
                old(reg)@
            } else {
                registered(old(reg)@, ToolModel::UseSkill(self@))
            }),
            in_order(old(reg)@) ==> in_order(final(reg)@),
    {
        if self.skills.len() == 0 {
            return;
        }
        reg.register(Tool::UseSkill(self.clone()));
    }

    /// The full instructions of the skill that the arguments name.
    pub fn use_skill(&self, args: &Json) -> (r: Result<String, Error>)
        ensures
            outcome(r) == used(self@, args@),
    {
        let name = match args.at("name").text() {
            Some(name) => name,
            None => return Err(Error::Tool("use_skill: missing 'name'".to_owned())),
        };
        let ghost all = views(self.skills@);
        let mut i: usize = 0;
        assert(all.skip(0) =~= all);
        while i < self.skills.len()
            invariant
                all == views(self.skills@),
                all == self@,
                args@.at("name"@).text() == Some(name@),
                i <= self.skills@.len(),
                skill_named(all, name@) == skill_named(all.skip(i as int), name@),
            decreases self.skills@.len() - i,
        {
            let skill = &self.skills[i];
            assert(all.skip(i as int)[0] == skill@);
            assert(all.skip(i as int).skip(1) =~= all.skip(i + 1));
            if same(skill.name.as_str(), name) {
                let mut out = "# Skill: ".to_owned();
                out.append(skill.name.as_str());
                out.append("\nDirectory: ");
                out.append(skill.dir.as_str());
                out.append("\n\n");
                out.append(skill.body.as_str());
                return Ok(out);
            }
            i += 1;
        }
        Err(Error::Tool(cat3("unknown skill '", name, "'")))
    }
}

fn keep_others(skills: &Vec<Skill>, name: &str) -> (r: Vec<Skill>)
    ensures
        views(r@) == without_name(views(skills@), name@),
{
    let ghost all = views(skills@);
    let mut out: Vec<Skill> = Vec::new();
    let mut i: usize = 0;
    assert(all.take(0) =~= Seq::empty());
    assert(views(out@) =~= Seq::empty());
    while i < skills.len()
        invariant
            all == views(skills@),
            i <= skills@.len(),
            views(out@) == without_name(all.take(i as int), name@),
        decreases skills@.len() - i,
    {
        assert(all.take(i + 1).drop_last() =~= all.take(i as int));
        assert(all.take(i + 1).last() == skills@[i as int]@);
        if !same(skills[i].name.as_str(), name) {
            let ghost before = views(out@);
            out.push(skills[i].clone());
            assert(views(out@) =~= before.push(skills@[i as int]@));
        }
        i += 1;
    }
    assert(all.take(i as int) =~= all);
    out
}

/// No two skills have the same name.
pub open spec fn names_differ(s: Seq<SkillModel>) -> bool {
    forall|i: int, j: int|
        0 <= i < s.len() && 0 <= j < s.len() && i != j ==> (#[trigger] s[i]).name != (
        #[trigger] s[j]).name
}

proof fn lemma_without_name(s: Seq<SkillModel>, name: Seq<char>)
    ensures
        forall|i: int|
            0 <= i < without_name(s, name).len() ==> (#[trigger] without_name(s, name)[i]).name
                != name && s.contains(without_name(s, name)[i]),
        names_differ(s) ==> names_differ(without_name(s, name)),
    decreases s.len(),
{
    if s.len() > 0 {
        let t = s.drop_last();
        let w = without_name(t, name);
        lemma_without_name(t, name);
        assert forall|k: int| 0 <= k < t.len() implies s.contains(#[trigger] t[k]) by {
            assert(s[k] == t[k]);
        }
        let r = without_name(s, name);
        assert forall|i: int| 0 <= i < r.len() implies (#[trigger] r[i]).name != name && s.contains(
            r[i],
        ) by {
            if i < w.len() {
                assert(r[i] == w[i]);
                assert(t.contains(w[i]));
                let k = choose|k: int| 0 <= k < t.len() && t[k] == w[i];
                assert(s.contains(t[k]));
            } else {
                assert(r[i] == s[s.len() - 1]);
            }
        }
        if names_differ(s) {
            assert forall|i: int, j: int| 0 <= i < t.len() && 0 <= j < t.len() && i != j implies (
            #[trigger] t[i]).name != (#[trigger] t[j]).name by {
                assert(s[i].name != s[j].name);
            }
            assert forall|i: int| 0 <= i < w.len() implies (#[trigger] w[i]).name
                != s.last().name by {
                assert(t.contains(w[i]));
                let k = choose|k: int| 0 <= k < t.len() && t[k] == w[i];
                assert(s[k].name != s[s.len() - 1].name);
            }
            assert forall|i: int, j: int| 0 <= i < r.len() && 0 <= j < r.len() && i != j implies (
            #[trigger] r[i]).name != (#[trigger] r[j]).name by {
                if i < w.len() && j < w.len() {
                    assert(r[i] == w[i] && r[j] == w[j]);
                } else if i < w.len() {
                    assert(r[i] == w[i]);
                } else {
                    assert(r[j] == w[j]);
                }
            }
        }
    }
}

proof fn lemma_named_push(s: Seq<SkillModel>, x: SkillModel, name: Seq<char>)
    ensures
        skill_named(s.push(x), name) == (match skill_named(s, name) {
            Some(y) => Some(y),
            None => if x.name == name {
                Some(x)
            } else {
                None
            },
        }),
    decreases s.len(),
{
    if s.len() == 0 {
        assert(s.push(x)[0] == x);
        assert(s.push(x).skip(1) =~= Seq::empty());
        assert(skill_named(Seq::empty(), name) is None);
    } else {
        assert(s.push(x)[0] == s[0]);
        assert(s.push(x).skip(1) =~= s.skip(1).push(x));
        lemma_named_push(s.skip(1), x, name);
    }
}

proof fn lemma_named_without(s: Seq<SkillModel>, gone: Seq<char>, name: Seq<char>)
    ensures
        skill_named(without_name(s, gone), name) == (if name == gone {
            None
        } else {
            skill_named(s, name)
        }),
    decreases s.len(),
{
    if s.len() > 0 {
        let t = s.drop_last();
        lemma_named_without(t, gone, name);
        lemma_named_push(t, s.last(), name);
        assert(t.push(s.last()) =~= s);
        lemma_named_push(without_name(t, gone), s.last(), name);
    }
}

/// A folder's skill is the one found under its name from then on, and what is found
/// under any other name does not change.
pub proof fn law_latest_folder_wins(
    s: Seq<SkillModel>,
    folder: SkillFolderModel,
    name: Seq<char>,
)
    ensures
        skill_named(scanned(s, folder), name) == (match folder.skill() {
            Some(skill) => if skill.name == name {
                Some(skill)
            } else {
                skill_named(s, name)
            },
            None => skill_named(s, name),
        }),
{
    if let Some(skill) = folder.skill() {
        lemma_named_without(s, skill.name, name);
        lemma_named_push(without_name(s, skill.name), skill, name);
    }
}

/// However many folders give a name, one skill has it.
pub proof fn law_names_differ(s: Seq<SkillModel>, folders: Seq<SkillFolderModel>)
    requires
        names_differ(s),
    ensures
        names_differ(scanned_all(s, folders)),
    decreases folders.len(),
{
    if folders.len() > 0 {
        law_names_differ(s, folders.drop_last());
        let before = scanned_all(s, folders.drop_last());
        if let Some(skill) = folders.last().skill() {
            lemma_without_name(before, skill.name);
            let w = without_name(before, skill.name);
            let r = w.push(skill);
            assert forall|i: int, j: int| 0 <= i < r.len() && 0 <= j < r.len() && i != j implies (
            #[trigger] r[i]).name != (#[trigger] r[j]).name by {
                if i < w.len() {
                    assert(r[i] == w[i]);
                }
                if j < w.len() {
                    assert(r[j] == w[j]);
                }
            }
        }
    }
}

/// Project skills override global ones: whatever the global folders hold, a name
/// that a project folder gives is found in the project.
pub proof fn law_project_overrides(
    global: Seq<SkillFolderModel>,
    project: Seq<SkillFolderModel>,
    name: Seq<char>,
)
    ensures
        ({
            let g = scanned_all(Seq::empty(), global);
            let own = skill_named(scanned_all(Seq::empty(), project), name);
            skill_named(scanned_all(g, project), name) == (match own {
                Some(skill) => Some(skill),
                None => skill_named(g, name),
            })
        }),
    decreases project.len(),
{
    let g = scanned_all(Seq::empty(), global);
    if project.len() == 0 {
        assert(skill_named(Seq::empty(), name) is None);
    } else {
        law_project_overrides(global, project.drop_last(), name);
        law_latest_folder_wins(scanned_all(g, project.drop_last()), project.last(), name);
        law_latest_folder_wins(
            scanned_all(Seq::empty(), project.drop_last()),
            project.last(),
            name,
        );
    }
}

/// Only names and descriptions go into the system prompt: skills that differ in their
/// bodies or directories alone are advertised alike.
pub proof fn law_prompt_holds_no_body(a: Seq<SkillModel>, b: Seq<SkillModel>)
    requires
        a.len() == b.len(),
        forall|i: int|
            0 <= i < a.len() ==> (#[trigger] a[i]).name == b[i].name && a[i].description
                == b[i].description,
    ensures
        advertisement(a) == advertisement(b),
    decreases a.len(),
{
    if a.len() > 0 {
        assert(a[a.len() - 1].name == b[b.len() - 1].name);
        assert forall|i: int| 0 <= i < a.drop_last().len() implies (
        #[trigger] a.drop_last()[i]).name == b.drop_last()[i].name
            && a.drop_last()[i].description == b.drop_last()[i].description by {
            assert(a[i].name == b[i].name);
        }
        law_prompt_holds_no_body(a.drop_last(), b.drop_last());
    }
}

/// The full instructions of a skill can be had under its name.
pub proof fn law_skill_loads_by_name(s: Seq<SkillModel>, i: int, args: JsonModel)
    requires
        names_differ(s),
        0 <= i < s.len(),
        args.at("name"@).text() == Some(s[i].name),
    ensures
        used(s, args) == Ok::<Seq<char>, ErrorModel>(instructions(s[i])),
{
    lemma_named_at(s, i);
}

proof fn lemma_named_at(s: Seq<SkillModel>, i: int)
    requires
        names_differ(s),
        0 <= i < s.len(),
    ensures
        skill_named(s, s[i].name) == Some(s[i]),
    decreases s.len(),
{
    if i > 0 {
        let rest = s.skip(1);
        assert(s[0].name != s[i].name);
        assert forall|a: int, b: int|
            0 <= a < rest.len() && 0 <= b < rest.len() && a != b implies (#[trigger] rest[a]).name
            != (#[trigger] rest[b]).name by {
            assert(rest[a] == s[a + 1] && rest[b] == s[b + 1]);
        }
        lemma_named_at(rest, i - 1);
    }
}

/// A text without frontmatter is all body, under the folder's name.
pub proof fn law_no_frontmatter(text: Seq<char>, fallback: Seq<char>)
    requires
        after_prefix(text, "---"@) is None,
    ensures
        skill_md(text, fallback) == (fallback, Seq::<char>::empty(), trim_of(text)),
{
}

} // verus!
