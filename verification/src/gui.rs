//! What the desktop window shows and sends.
//!
//! A thin shell over the same agent loop, providers, tools, and streaming as the
//! CLI: this module computes its listings and the payloads of its events.
use vstd::prelude::*;
use vstd::multiset::Multiset;
use vstd::seq_lib::lemma_multiset_commutative;

use crate::cli::{active_name, prompt_for, prompt_with};
use crate::config::{Config, ConfigModel, ProviderConfigModel};
use crate::json::{Json, JsonModel, Members};
use crate::skills::SkillRegistry;
use crate::text::{
    chars_of, comes_before, lemma_precedes_irreflexive, lemma_precedes_transitive, opt_view,
    precedes, same, views,
};
use crate::tools::{safe_join, safely_joined};

verus! {

/// A model in the dropdown.
#[derive(Debug)]
pub struct ModelInfo {
    pub name: String,
    pub kind: String,
    pub model: String,
    pub default: bool,
}

/// The model of a [`ModelInfo`].
#[verifier::ext_equal]
pub struct ModelInfoModel {
    pub name: Seq<char>,
    pub kind: Seq<char>,
    pub model: Seq<char>,
    pub default: bool,
}

impl View for ModelInfo {
    type V = ModelInfoModel;

    open spec fn view(&self) -> ModelInfoModel {
        ModelInfoModel {
            name: self.name@,
            kind: self.kind@,
            model: self.model@,
            default: self.default,
        }
    }
}

pub open spec fn model_info(p: ProviderConfigModel, active: Option<Seq<char>>) -> ModelInfoModel {
    ModelInfoModel {
        name: p.name,
        kind: p.kind.label(),
        model: p.model,
        default: active == Some(p.name),
    }
}

pub open spec fn model_infos(cfg: ConfigModel) -> Seq<ModelInfoModel> {
    Seq::new(
        cfg.providers.len(),
        |i: int| model_info(cfg.providers[i], active_name(cfg, None)),
    )
}

/// The configured models, the default one marked.
pub fn list_models(cfg: &Config) -> (r: Vec<ModelInfo>)
    ensures
        views(r@) == model_infos(cfg@),
{
    let active: Option<&str> = match cfg.select_provider(None) {
        Ok(p) => Some(p.name.as_str()),
        Err(_) => None,
    };
    let mut out: Vec<ModelInfo> = Vec::new();
    let mut i: usize = 0;
    while i < cfg.providers.len()
        invariant
            i <= cfg.providers@.len(),
            out@.len() == i,
            forall|k: int|
                0 <= k < i ==> (#[trigger] out@[k])@ == model_info(
                    cfg.providers@[k]@,
                    opt_view(active),
                ),
        decreases cfg.providers@.len() - i,
    {
        let p = &cfg.providers[i];
        let default = match active {
            Some(name) => same(name, p.name.as_str()),
            None => false,
        };
        out.push(
            ModelInfo {
                name: p.name.clone(),
                kind: p.kind.name().to_owned(),
                model: p.model.clone(),
                default,
            },
        );
        i += 1;
    }
    assert(views(out@) =~= model_infos(cfg@));
    out
}

/// The system prompt of an agent in a window.
pub fn system_prompt(cwd: &str, skills: &SkillRegistry) -> (r: String)
    ensures
        r@ == prompt_for(cwd@, "Be concise."@, skills@),
{
    prompt_with(cwd, "Be concise.", skills)
}

/// An entry of the file tree.
#[derive(Debug)]
pub struct TreeEntry {
    pub name: String,
    pub dir: bool,
}

/// The model of a [`TreeEntry`].
#[verifier::ext_equal]
pub struct TreeEntryModel {
    pub name: Seq<char>,
    pub dir: bool,
}

impl View for TreeEntry {
    type V = TreeEntryModel;

    open spec fn view(&self) -> TreeEntryModel {
        TreeEntryModel { name: self.name@, dir: self.dir }
    }
}

impl Clone for TreeEntry {
    fn clone(&self) -> (r: TreeEntry)
        ensures
            r@ == self@,
    {
        TreeEntry { name: self.name.clone(), dir: self.dir }
    }
}

/// Entries hidden from the file tree: those with a hidden name, and some directories.
pub open spec fn is_hidden(e: TreeEntryModel) -> bool {
    ||| e.name.len() > 0 && e.name[0] == '.'
    ||| e.dir && (e.name == ".git"@ || e.name == "target"@ || e.name == "node_modules"@)
}

pub fn hides(entry: &TreeEntry) -> (r: bool)
    ensures
        r == is_hidden(entry@),
{
    let name = entry.name.as_str();
    let v = chars_of(name);
    (v.len() > 0 && v[0] == '.') || (entry.dir && (same(name, ".git") || same(name, "target")
        || same(name, "node_modules")))
}

/// Directories come first, then files, both in alphabetical order.
pub open spec fn goes_before(a: TreeEntryModel, b: TreeEntryModel) -> bool {
    if a.dir == b.dir {
        precedes(a.name, b.name)
    } else {
        a.dir
    }
}

/// `s` with `x` at its place: before the first entry that it goes before.
pub open spec fn placed(s: Seq<TreeEntryModel>, x: TreeEntryModel) -> Seq<TreeEntryModel>
    decreases s.len(),
{
    if s.len() == 0 || goes_before(x, s[0]) {
        seq![x] + s
    } else {
        seq![s[0]] + placed(s.skip(1), x)
    }
}

/// The entries of a directory as the tree shows them.
pub open spec fn tree_of(s: Seq<TreeEntryModel>) -> Seq<TreeEntryModel>
    decreases s.len(),
{
    if s.len() == 0 {
        Seq::empty()
    } else if is_hidden(s.last()) {
        tree_of(s.drop_last())
    } else {
        placed(tree_of(s.drop_last()), s.last())
    }
}

proof fn lemma_placed_at(s: Seq<TreeEntryModel>, x: TreeEntryModel, i: int)
    requires
        0 <= i <= s.len(),
        forall|k: int| 0 <= k < i ==> !goes_before(x, #[trigger] s[k]),
        i < s.len() ==> goes_before(x, s[i]),
    ensures
        placed(s, x) == s.insert(i, x),
    decreases i,
{
    if i > 0 {
        let rest = s.skip(1);
        assert forall|k: int| 0 <= k < i - 1 implies !goes_before(x, #[trigger] rest[k]) by {
            assert(rest[k] == s[k + 1]);
        }
        lemma_placed_at(rest, x, i - 1);
        assert(!goes_before(x, s[0]));
        assert(seq![s[0]] + rest.insert(i - 1, x) =~= s.insert(i, x));
    } else {
        assert(placed(s, x) =~= s.insert(0, x));
    }
}

fn ahead(a: &TreeEntry, b: &TreeEntry) -> (r: bool)
    ensures
        r == goes_before(a@, b@),
{
    if a.dir == b.dir {
        comes_before(a.name.as_str(), b.name.as_str())
    } else {
        a.dir
    }
}

/// One directory level of the file tree: hidden entries left out, directories first,
/// then files, both alphabetical.
pub fn list_tree(entries: &Vec<TreeEntry>) -> (r: Vec<TreeEntry>)
    ensures
        views(r@) == tree_of(views(entries@)),
{
    let ghost all = views(entries@);
    let mut out: Vec<TreeEntry> = Vec::new();
    let mut i: usize = 0;
    assert(all.take(0) =~= Seq::empty());
    assert(views(out@) =~= Seq::empty());
    while i < entries.len()
        invariant
            all == views(entries@),
            i <= entries@.len(),
            views(out@) == tree_of(all.take(i as int)),
        decreases entries@.len() - i,
    {
        let entry = &entries[i];
        assert(all.take(i + 1).drop_last() =~= all.take(i as int));
        assert(all.take(i + 1).last() == entry@);
        if !hides(entry) {
            let ghost before = views(out@);
            let mut k: usize = 0;
            while k < out.len() && !ahead(entry, &out[k])
                invariant
                    before == views(out@),
                    k <= out@.len(),
                    forall|j: int| 0 <= j < k ==> !goes_before(entry@, #[trigger] before[j]),
                decreases out@.len() - k,
            {
                assert(before[k as int] == out@[k as int]@);
                k += 1;
            }
            if k < out.len() {
                assert(before[k as int] == out@[k as int]@);
            }
            proof {
                lemma_placed_at(before, entry@, k as int);
            }
            out.insert(k, entry.clone());
            assert(views(out@) =~= before.insert(k as int, entry@));
        }
        i += 1;
    }
    assert(all.take(i as int) =~= all);
    out
}

/// What stands for a path in the window: where it is below the project root, or what is
/// said of one that is not.
pub open spec fn shown_path(root: Seq<char>, rel: Seq<char>, windows: bool) -> Result<
    Seq<char>,
    Seq<char>,
> {
    match safely_joined(root, rel, windows) {
        Ok(path) => Ok(path),
        Err(e) => Err(e.message()),
    }
}

/// The directory that the tree shows.
pub open spec fn shown_dir(root: Seq<char>, rel: Seq<char>, windows: bool) -> Result<
    Seq<char>,
    Seq<char>,
> {
    shown_path(
        root,
        if rel.len() == 0 {
            "."@
        } else {
            rel
        },
        windows,
    )
}

/// The directory that the tree shows; the project root where none is named.
pub fn tree_dir(root: &str, rel: &str, windows: bool) -> (r: Result<String, String>)
    ensures
        match r {
            Ok(path) => shown_dir(root@, rel@, windows) == Ok::<Seq<char>, Seq<char>>(path@),
            Err(e) => shown_dir(root@, rel@, windows) == Err::<Seq<char>, Seq<char>>(e@),
        },
{
    let joined = if rel.is_empty() {
        safe_join(root, ".", windows)
    } else {
        safe_join(root, rel, windows)
    };
    match joined {
        Ok(path) => Ok(path),
        Err(e) => Err(e.message().to_owned()),
    }
}

/// The path of a project file that is read or saved.
pub fn file_path(root: &str, rel: &str, windows: bool) -> (r: Result<String, String>)
    ensures
        match r {
            Ok(path) => shown_path(root@, rel@, windows) == Ok::<Seq<char>, Seq<char>>(path@),
            Err(e) => shown_path(root@, rel@, windows) == Err::<Seq<char>, Seq<char>>(e@),
        },
{
    match safe_join(root, rel, windows) {
        Ok(path) => Ok(path),
        Err(e) => Err(e.message().to_owned()),
    }
}

/// The payload of a `tool-call` event.
pub open spec fn call_payload(name: Seq<char>, summary: Seq<char>) -> JsonModel {
    JsonModel::Obj(map!["name"@ => JsonModel::Str(name), "summary"@ => JsonModel::Str(summary)])
}

/// The payload of a `tool-result` event.
pub open spec fn result_payload(name: Seq<char>, result: Seq<char>, ok: bool) -> JsonModel {
    JsonModel::Obj(
        map![
            "name"@ => JsonModel::Str(name),
            "result"@ => JsonModel::Str(result),
            "ok"@ => JsonModel::Bool(ok),
        ],
    )
}

/// The payload of a `permission-request` event.
pub open spec fn permission_payload(id: u64, tool: Seq<char>, summary: Seq<char>) -> JsonModel {
    JsonModel::Obj(
        map![
            "id"@ => JsonModel::Int(id as int),
            "tool"@ => JsonModel::Str(tool),
            "summary"@ => JsonModel::Str(summary),
        ],
    )
}

/// The payload of a `tool-call` event.
pub fn tool_call_event(name: &str, summary: &str) -> (r: Json)
    ensures
        r@ == call_payload(name@, summary@),
{
    let mut m = Members::new();
    m.put_text("name", name);
    m.put_text("summary", summary);
    m.done()
}

/// The payload of a `tool-result` event.
pub fn tool_result_event(name: &str, result: &str, ok: bool) -> (r: Json)
    ensures
        r@ == result_payload(name@, result@, ok),
{
    let mut m = Members::new();
    m.put_text("name", name);
    m.put_text("result", result);
    m.put("ok", Json::Bool(ok));
    m.done()
}

/// The payload of the `tool-result` event for a denied call.
pub fn denied_event(name: &str) -> (r: Json)
    ensures
        r@ == result_payload(name@, "denied"@, false),
{
    tool_result_event(name, "denied", false)
}

/// The payload of a `permission-request` event.
pub fn permission_event(id: u64, tool: &str, summary: &str) -> (r: Json)
    ensures
        r@ == permission_payload(id, tool@, summary@),
{
    let mut m = Members::new();
    m.put("id", Json::UInt(id));
    m.put_text("tool", tool);
    m.put_text("summary", summary);
    m.done()
}

/// No entry goes before one that stands ahead of it.
pub open spec fn in_tree_order(s: Seq<TreeEntryModel>) -> bool {
    forall|i: int, j: int|
        0 <= i < j < s.len() ==> !goes_before(#[trigger] s[j], #[trigger] s[i])
}

proof fn lemma_before_transitive(a: TreeEntryModel, b: TreeEntryModel, c: TreeEntryModel)
    requires
        goes_before(a, b),
        goes_before(b, c),
    ensures
        goes_before(a, c),
{
    if a.dir == b.dir && b.dir == c.dir {
        lemma_precedes_transitive(a.name, b.name, c.name);
    }
}

proof fn lemma_placed(s: Seq<TreeEntryModel>, x: TreeEntryModel)
    ensures
        placed(s, x).to_multiset() == s.to_multiset().insert(x),
        in_tree_order(s) ==> in_tree_order(placed(s, x)),
        forall|i: int|
            0 <= i < placed(s, x).len() ==> (#[trigger] placed(s, x)[i]) == x || s.contains(
                placed(s, x)[i],
            ),
    decreases s.len(),
{
    broadcast use vstd::seq_lib::group_to_multiset_ensures;

    let p = placed(s, x);
    if s.len() == 0 || goes_before(x, s[0]) {
        lemma_multiset_commutative(seq![x], s);
        assert(seq![x] =~= Seq::empty().push(x));
        assert(p.to_multiset() =~= s.to_multiset().insert(x));
        if in_tree_order(s) {
            assert forall|i: int, j: int| 0 <= i < j < p.len() implies !goes_before(
                #[trigger] p[j],
                #[trigger] p[i],
            ) by {
                assert(p[j] == s[j - 1]);
                if i > 0 {
                    assert(p[i] == s[i - 1]);
                } else if goes_before(p[j], x) {
                    lemma_before_transitive(p[j], x, s[0]);
                    if j == 1 {
                        lemma_precedes_irreflexive(s[0].name);
                    } else {
                        assert(!goes_before(s[j - 1], s[0]));
                    }
                }
            }
        }
        assert forall|i: int| 0 <= i < p.len() implies (#[trigger] p[i]) == x || s.contains(
            p[i],
        ) by {
            if i > 0 {
                assert(p[i] == s[i - 1]);
            }
        }
    } else {
        let rest = s.skip(1);
        let q = placed(rest, x);
        lemma_placed(rest, x);
        lemma_multiset_commutative(seq![s[0]], q);
        lemma_multiset_commutative(seq![s[0]], rest);
        assert(seq![s[0]] + rest =~= s);
        assert(p.to_multiset() =~= s.to_multiset().insert(x));
        assert forall|i: int| 0 <= i < p.len() implies (#[trigger] p[i]) == x || s.contains(
            p[i],
        ) by {
            if i > 0 {
                assert(p[i] == q[i - 1]);
                if q[i - 1] != x {
                    assert(rest.contains(q[i - 1]));
                    let k = choose|k: int| 0 <= k < rest.len() && rest[k] == q[i - 1];
                    assert(s[k + 1] == q[i - 1]);
                }
            } else {
                assert(s[0] == p[0]);
            }
        }
        if in_tree_order(s) {
            assert forall|i: int, j: int| 0 <= i < j < rest.len() implies !goes_before(
                #[trigger] rest[j],
                #[trigger] rest[i],
            ) by {
                assert(rest[i] == s[i + 1] && rest[j] == s[j + 1]);
            }
            assert forall|i: int, j: int| 0 <= i < j < p.len() implies !goes_before(
                #[trigger] p[j],
                #[trigger] p[i],
            ) by {
                assert(p[j] == q[j - 1]);
                if i > 0 {
                    assert(p[i] == q[i - 1]);
                } else if q[j - 1] != x {
                    assert(rest.contains(q[j - 1]));
                    let k = choose|k: int| 0 <= k < rest.len() && rest[k] == q[j - 1];
                    assert(rest[k] == s[k + 1]);
                }
            }
        }
    }
}

/// The visible entries of a directory.
pub open spec fn visible(s: Seq<TreeEntryModel>) -> Multiset<TreeEntryModel>
    decreases s.len(),
{
    if s.len() == 0 {
        Multiset::empty()
    } else if is_hidden(s.last()) {
        visible(s.drop_last())
    } else {
        visible(s.drop_last()).insert(s.last())
    }
}

/// The tree shows the entries that are not hidden, each as often as the directory
/// has it, directories first, then files, both in alphabetical order.
pub proof fn law_tree_is_sorted(s: Seq<TreeEntryModel>)
    ensures
        in_tree_order(tree_of(s)),
        tree_of(s).to_multiset() == visible(s),
    decreases s.len(),
{
    broadcast use vstd::seq_lib::group_to_multiset_ensures;

    if s.len() == 0 {
        assert(tree_of(s).to_multiset() =~= Multiset::empty());
    } else {
        law_tree_is_sorted(s.drop_last());
        lemma_placed(tree_of(s.drop_last()), s.last());
    }
}

} // verus!
