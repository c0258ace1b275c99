//! Substring search over the project's text files.
//!
//! The search goes through a directory and, depth first, through those below it. It
//! performs no I/O of its own: it says which directory or file to read next, and
//! takes in what was read.
use vstd::prelude::*;

use crate::paths::{below_on, relative_on};
use crate::text::{
    chars_of, contains, decimal, decimal_of, lines, lines_of, occurs_in, opt_view, same, trim,
    trim_of, views,
};
use crate::tools::{ContextModel, ToolContext};

verus! {

/// The search stops after this many lines.
pub const MAX_HITS: usize = 200;

#[derive(Debug, Clone, Copy, PartialEq, Eq, Structural)]
pub enum EntryKind {
    Dir,
    File,
    Other,
}

/// An entry of a directory.
#[derive(Debug)]
pub struct Entry {
    pub name: String,
    pub path: String,
    pub kind: EntryKind,
}

/// The model of an [`Entry`].
#[verifier::ext_equal]
pub struct EntryModel {
    pub name: Seq<char>,
    pub path: Seq<char>,
    pub kind: EntryKind,
}

impl View for Entry {
    type V = EntryModel;

    open spec fn view(&self) -> EntryModel {
        EntryModel { name: self.name@, path: self.path@, kind: self.kind }
    }
}

/// Entries that are passed over: those with a hidden name, and directories that are
/// huge or irrelevant.
pub open spec fn is_skipped(e: EntryModel) -> bool {
    ||| e.name.len() > 0 && e.name[0] == '.'
    ||| e.kind == EntryKind::Dir && is_skipped_dir(e.name)
}

/// Names of directories that are huge or irrelevant.
pub open spec fn is_skipped_dir(name: Seq<char>) -> bool {
    name == ".git"@ || name == "target"@ || name == "node_modules"@ || name == ".ade"@
}

pub fn skips(entry: &Entry) -> (r: bool)
    ensures
        r == is_skipped(entry@),
{
    let name = entry.name.as_str();
    let v = chars_of(name);
    (v.len() > 0 && v[0] == '.') || (entry.kind == EntryKind::Dir && (same(name, ".git") || same(
        name,
        "target",
    ) || same(name, "node_modules") || same(name, ".ade")))
}

/// What has been found: the lines put out, and their number.
#[verifier::ext_equal]
pub struct Found {
    pub out: Seq<char>,
    pub hits: nat,
}

/// A line that was found, as it is put out.
pub open spec fn hit_line(shown: Seq<char>, number: nat, line: Seq<char>) -> Seq<char> {
    shown + ":"@ + decimal_of(number) + ": "@ + trim_of(line) + "\n"@
}

impl Found {
    pub open spec fn none() -> Found {
        Found { out: Seq::empty(), hits: 0 }
    }

    pub open spec fn is_full(self) -> bool {
        self.hits >= MAX_HITS
    }

    /// What is found after the lines from number `i` on.
    pub open spec fn with_lines(
        self,
        query: Seq<char>,
        shown: Seq<char>,
        lines: Seq<Seq<char>>,
        i: int,
    ) -> Found
        decreases lines.len() - i,
    {
        if i < 0 || i >= lines.len() || self.is_full() {
            self
        } else if occurs_in(lines[i], query) {
            Found {
                out: self.out + hit_line(shown, (i + 1) as nat, lines[i]),
                hits: self.hits + 1,
            }.with_lines(query, shown, lines, i + 1)
        } else {
            self.with_lines(query, shown, lines, i + 1)
        }
    }

    /// What is found after a file. Files go by their path below the root.
    pub open spec fn with_file(
        self,
        ctx: ContextModel,
        query: Seq<char>,
        path: Seq<char>,
        text: Seq<char>,
    ) -> Found {
        let shown = match below_on(ctx.root, path, ctx.windows) {
            Some(rel) => rel,
            None => path,
        };
        self.with_lines(query, shown, lines_of(text), 0)
    }
}

/// The model of a [`Walk`].
#[verifier::ext_equal]
pub struct WalkModel {
    pub ctx: ContextModel,
    pub query: Seq<char>,
    pub found: Found,
    /// The entries that are still to be visited, in order.
    pub work: Seq<EntryModel>,
}

/// What to read next.
#[derive(Debug)]
pub enum WalkStep {
    ReadDir(String),
    ReadFile(String),
    Done,
}

/// The model of a [`WalkStep`].
#[verifier::ext_equal]
pub enum WalkStepModel {
    ReadDir(Seq<char>),
    ReadFile(Seq<char>),
    Done,
}

impl View for WalkStep {
    type V = WalkStepModel;

    open spec fn view(&self) -> WalkStepModel {
        match *self {
            WalkStep::ReadDir(path) => WalkStepModel::ReadDir(path@),
            WalkStep::ReadFile(path) => WalkStepModel::ReadFile(path@),
            WalkStep::Done => WalkStepModel::Done,
        }
    }
}

impl WalkModel {
    pub open spec fn started(ctx: ContextModel, query: Seq<char>) -> WalkModel {
        WalkModel { ctx, query, found: Found::none(), work: Seq::empty() }
    }

    /// The first entry that has to be read, and the walk behind it.
    pub open spec fn stepped(self) -> (WalkModel, WalkStepModel)
        decreases self.work.len(),
    {
        if self.found.is_full() || self.work.len() == 0 {
            (self, WalkStepModel::Done)
        } else {
            let entry = self.work[0];
            let next = WalkModel { work: self.work.skip(1), ..self };
            if is_skipped(entry) || entry.kind == EntryKind::Other {
                next.stepped()
            } else if entry.kind == EntryKind::Dir {
                (next, WalkStepModel::ReadDir(entry.path))
            } else {
                (next, WalkStepModel::ReadFile(entry.path))
            }
        }
    }

    /// A directory was read: its entries come next. One that could not be read has
    /// none.
    pub open spec fn listed(self, entries: Option<Seq<EntryModel>>) -> WalkModel {
        match entries {
            Some(s) => WalkModel { work: s + self.work, ..self },
            None => self,
        }
    }

    /// A file was read. One that could not be read holds nothing.
    pub open spec fn read(self, path: Seq<char>, text: Option<Seq<char>>) -> WalkModel {
        match text {
            Some(t) => WalkModel {
                found: self.found.with_file(self.ctx, self.query, path, t),
                ..self
            },
            None => self,
        }
    }

    /// The result of the search.
    pub open spec fn output(self) -> Seq<char> {
        if self.found.out.len() == 0 {
            "(no matches)"@
        } else {
            self.found.out
        }
    }
}

/// A search under way.
#[derive(Debug)]
pub struct Walk {
    root: String,
    windows: bool,
    query: String,
    out: String,
    hits: usize,
    /// The entries still to be visited, the next one last.
    work: Vec<Entry>,
}

impl View for Walk {
    type V = WalkModel;

    closed spec fn view(&self) -> WalkModel {
        WalkModel {
            ctx: ContextModel { root: self.root@, windows: self.windows },
            query: self.query@,
            found: Found { out: self.out@, hits: self.hits as nat },
            work: views(self.work@).reverse(),
        }
    }
}

impl Walk {
    /// A search for `query` in a project, with nothing read yet.
    pub fn new(ctx: &ToolContext, query: &str) -> (r: Walk)
        ensures
            r@ == WalkModel::started(ctx@, query@),
    {
        let r = Walk {
            root: ctx.root.clone(),
            windows: ctx.windows,
            query: query.to_owned(),
            out: String::new(),
            hits: 0,
            work: Vec::new(),
        };
        assert(r@.work =~= Seq::empty());
        r
    }

    /// What to read next.
    pub fn next(&mut self) -> (r: WalkStep)
        ensures
            (final(self)@, r@) == old(self)@.stepped(),
    {
        let ghost start = self@;
        while self.hits < MAX_HITS && self.work.len() > 0
            invariant
                start == old(self)@,
                start.stepped() == self@.stepped(),
            decreases self.work@.len(),
        {
            let ghost before = self@;
            let ghost n = self.work@.len() as int;
            match self.work.pop() {
                Some(entry) => {
                    assert(before.work[0] == entry@);
                    assert(self@.work =~= before.work.skip(1));
                    if skips(&entry) {
                        continue;
                    }
                    match entry.kind {
                        EntryKind::Dir => return WalkStep::ReadDir(entry.path),
                        EntryKind::File => return WalkStep::ReadFile(entry.path),
                        EntryKind::Other => {},
                    }
                },
                None => {},
            }
        }
        assert(self.work@.len() == 0 ==> self@.work.len() == 0);
        WalkStep::Done
    }

    /// Take in the entries of the directory that was to be read, where it could be.
    pub fn on_dir(&mut self, entries: Option<Vec<Entry>>)
        ensures
            final(self)@ == old(self)@.listed(
                match entries {
                    Some(v) => Some(views(v@)),
                    None => None,
                },
            ),
    {
        let ghost before = self@;
        if let Some(entries) = entries {
            let ghost all = views(entries@);
            let mut rest = entries;
            while rest.len() > 0
                invariant
                    rest@.len() <= all.len(),
                    views(rest@) == all.take(rest@.len() as int),
                    self@.ctx == before.ctx,
                    self@.query == before.query,
                    self@.found == before.found,
                    self@.work == all.skip(rest@.len() as int) + before.work,
                decreases rest@.len(),
            {
                let ghost n = rest@.len() as int;
                let ghost work = self@.work;
                match rest.pop() {
                    Some(entry) => {
                        self.work.push(entry);
                        assert(all.take(n)[n - 1] == entry@);
                        assert(self@.work =~= seq![entry@] + work);
                        assert(self@.work =~= all.skip(n - 1) + before.work);
                        assert(views(rest@) =~= all.take(n - 1));
                    },
                    None => {},
                }
            }
            assert(all.skip(0) =~= all);
        }
    }

    /// Take in the text of the file that was to be read, where it could be.
    pub fn on_file(&mut self, path: &str, text: Option<&str>)
        ensures
            final(self)@ == old(self)@.read(path@, opt_view(text)),
    {
        let ghost before = self@;
        let text = match text {
            Some(t) => t,
            None => return,
        };
        let shown = match relative_on(self.root.as_str(), path, self.windows) {
            Some(rel) => rel,
            None => path.to_owned(),
        };
        let split = lines(text);
        let ghost all = views(split@);
        let ghost end = before.found.with_lines(before.query, shown@, all, 0);
        let mut i: usize = 0;
        while i < split.len() && self.hits < MAX_HITS
            invariant
                all == views(split@),
                i <= split@.len(),
                self@.ctx == before.ctx,
                self@.query == before.query,
                self@.work == before.work,
                end == self@.found.with_lines(before.query, shown@, all, i as int),
            decreases split@.len() - i,
        {
            assert(all[i as int] == split@[i as int]@);
            let line = split[i].as_str();
            if contains(line, self.query.as_str()) {
                let ghost out = self.out@;
                self.out.append(shown.as_str());
                self.out.append(":");
                assert(i + 1 <= split.len());
                self.out.append(decimal((i + 1) as u128).as_str());
                self.out.append(": ");
                self.out.append(trim(line).as_str());
                self.out.append("\n");
                assert(self.out@ =~= out + hit_line(shown@, (i + 1) as nat, line@));
                self.hits += 1;
            }
            i += 1;
        }
    }

    /// The result of the search.
    pub fn output(&self) -> (r: String)
        ensures
            r@ == self@.output(),
    {
        if self.out.as_str().is_empty() {
            "(no matches)".to_owned()
        } else {
            self.out.clone()
        }
    }
}

/// A file system as a search finds it: each directory with its entries, each file
/// with its text, in the order in which they are read.
pub enum Tree {
    Dir { name: Seq<char>, path: Seq<char>, entries: Seq<Tree> },
    /// A directory that cannot be read.
    Sealed { name: Seq<char>, path: Seq<char> },
    File { name: Seq<char>, path: Seq<char>, text: Seq<char> },
    /// A file that cannot be read as text.
    Unread { name: Seq<char>, path: Seq<char> },
    Other { name: Seq<char>, path: Seq<char> },
}

impl Tree {
    /// The entry as a directory shows it.
    pub open spec fn entry(self) -> EntryModel {
        match self {
            Tree::Dir { name, path, .. } => EntryModel { name, path, kind: EntryKind::Dir },
            Tree::Sealed { name, path } => EntryModel { name, path, kind: EntryKind::Dir },
            Tree::File { name, path, .. } => EntryModel { name, path, kind: EntryKind::File },
            Tree::Unread { name, path } => EntryModel { name, path, kind: EntryKind::File },
            Tree::Other { name, path } => EntryModel { name, path, kind: EntryKind::Other },
        }
    }
}

pub open spec fn entries_of(s: Seq<Tree>) -> Seq<EntryModel> {
    Seq::new(s.len(), |i: int| s[i].entry())
}

/// The number of entries in `s` and below.
pub open spec fn weight(s: Seq<Tree>) -> nat
    decreases s,
{
    if s.len() == 0 {
        0
    } else {
        let first = s[0];
        let inside = match first {
            Tree::Dir { entries, .. } => weight(entries),
            _ => 0,
        };
        1 + inside + weight(s.skip(1))
    }
}

/// What a search finds in the entries `s`: each entry in turn, a directory with all
/// that is below it, until enough has been found.
pub open spec fn walked(found: Found, ctx: ContextModel, query: Seq<char>, s: Seq<Tree>) -> Found
    decreases s,
{
    if s.len() == 0 || found.is_full() {
        found
    } else {
        let first = s[0];
        let next = if is_skipped(first.entry()) {
            found
        } else {
            match first {
                Tree::Dir { entries, .. } => walked(found, ctx, query, entries),
                Tree::File { path, text, .. } => found.with_file(ctx, query, path, text),
                _ => found,
            }
        };
        walked(next, ctx, query, s.skip(1))
    }
}

/// A walk run to its end in the file system `s`, whose entries are its work.
pub open spec fn run(w: WalkModel, s: Seq<Tree>) -> WalkModel
    decreases weight(s),
{
    let (next, step) = w.stepped();
    let k = w.work.len() - next.work.len() - 1;
    if step is Done || k < 0 || k >= s.len() {
        next
    } else {
        let rest = s.skip(k + 1);
        proof {
            lemma_weight_at(s, k);
        }
        match s[k] {
            Tree::Dir { entries, .. } => {
                proof {
                    lemma_weight_add(entries, rest);
                }
                run(next.listed(Some(entries_of(entries))), entries + rest)
            },
            Tree::File { path, text, .. } => run(next.read(path, Some(text)), rest),
            Tree::Sealed { .. } => run(next.listed(None), rest),
            Tree::Unread { path, .. } => run(next.read(path, None), rest),
            Tree::Other { .. } => next,
        }
    }
}

pub proof fn lemma_weight_add(a: Seq<Tree>, b: Seq<Tree>)
    ensures
        weight(a + b) == weight(a) + weight(b),
    decreases a.len(),
{
    if a.len() == 0 {
        assert(a + b =~= b);
    } else {
        assert((a + b)[0] == a[0]);
        assert((a + b).skip(1) =~= a.skip(1) + b);
        lemma_weight_add(a.skip(1), b);
    }
}

pub proof fn lemma_weight_at(s: Seq<Tree>, k: int)
    requires
        0 <= k < s.len(),
    ensures
        weight(s.skip(k + 1)) + 1 + (match s[k] {
            Tree::Dir { entries, .. } => weight(entries),
            _ => 0,
        }) <= weight(s),
    decreases k,
{
    if k > 0 {
        assert(s.skip(1)[k - 1] == s[k]);
        assert(s.skip(1).skip(k) =~= s.skip(k + 1));
        lemma_weight_at(s.skip(1), k - 1);
    }
}

proof fn lemma_walked_add(
    found: Found,
    ctx: ContextModel,
    query: Seq<char>,
    a: Seq<Tree>,
    b: Seq<Tree>,
)
    ensures
        walked(found, ctx, query, a + b) == walked(
            walked(found, ctx, query, a),
            ctx,
            query,
            b,
        ),
    decreases a.len(),
{
    if a.len() == 0 {
        assert(a + b =~= b);
    } else {
        assert((a + b)[0] == a[0]);
        assert((a + b).skip(1) =~= a.skip(1) + b);
        if !found.is_full() {
            let first = a[0];
            let next = if is_skipped(first.entry()) {
                found
            } else {
                match first {
                    Tree::Dir { entries, .. } => walked(found, ctx, query, entries),
                    Tree::File { path, text, .. } => found.with_file(ctx, query, path, text),
                    _ => found,
                }
            };
            lemma_walked_add(next, ctx, query, a.skip(1), b);
        }
    }
}

proof fn lemma_stepped_len(w: WalkModel)
    ensures
        w.stepped().0.work.len() <= w.work.len(),
        !(w.stepped().1 is Done) ==> w.stepped().0.work.len() < w.work.len(),
    decreases w.work.len(),
{
    if !w.found.is_full() && w.work.len() > 0 {
        let entry = w.work[0];
        if is_skipped(entry) || entry.kind == EntryKind::Other {
            lemma_stepped_len(WalkModel { work: w.work.skip(1), ..w });
        }
    }
}

/// The walk finds what a search through the whole tree finds: every file below, in
/// order, but for skipped entries, up to the limit.
pub proof fn law_walk_searches_tree(w: WalkModel, s: Seq<Tree>)
    requires
        w.work == entries_of(s),
    ensures
        run(w, s).found == walked(w.found, w.ctx, w.query, s),
    decreases weight(s),
{
    if !w.found.is_full() && s.len() > 0 {
        let first = s[0];
        let rest = s.skip(1);
        let next = WalkModel { work: w.work.skip(1), ..w };
        assert(w.work[0] == first.entry());
        assert(next.work =~= entries_of(rest));
        lemma_weight_at(s, 0);
        if is_skipped(first.entry()) || first.entry().kind == EntryKind::Other {
            law_walk_searches_tree(next, rest);
            assert(w.stepped() == next.stepped());
            lemma_stepped_len(next);
            let k = next.work.len() - next.stepped().0.work.len() - 1;
            if !(next.stepped().1 is Done) {
                assert(s[k + 1] == rest[k]);
                assert(s.skip(k + 2) =~= rest.skip(k + 1));
            }
            assert(run(w, s) == run(next, rest));
        } else {
            match first {
                Tree::Dir { entries, .. } => {
                    lemma_weight_add(entries, rest);
                    let inner = next.listed(Some(entries_of(entries)));
                    assert(inner.work =~= entries_of(entries + rest));
                    law_walk_searches_tree(inner, entries + rest);
                    lemma_walked_add(w.found, w.ctx, w.query, entries, rest);
                },
                Tree::File { path, text, .. } => {
                    law_walk_searches_tree(next.read(path, Some(text)), rest);
                },
                Tree::Sealed { .. } => {
                    law_walk_searches_tree(next.listed(None), rest);
                },
                Tree::Unread { path, .. } => {
                    law_walk_searches_tree(next.read(path, None), rest);
                },
                Tree::Other { .. } => {},
            }
        }
    }
}

/// No search puts out more lines than the limit.
pub proof fn law_hits_are_limited(
    found: Found,
    ctx: ContextModel,
    query: Seq<char>,
    s: Seq<Tree>,
)
    requires
        found.hits <= MAX_HITS,
    ensures
        found.hits <= walked(found, ctx, query, s).hits <= MAX_HITS,
    decreases s,
{
    if s.len() > 0 && !found.is_full() {
        let first = s[0];
        let next = if is_skipped(first.entry()) {
            found
        } else {
            match first {
                Tree::Dir { entries, .. } => walked(found, ctx, query, entries),
                Tree::File { path, text, .. } => found.with_file(ctx, query, path, text),
                _ => found,
            }
        };
        if !is_skipped(first.entry()) {
            match first {
                Tree::Dir { entries, .. } => law_hits_are_limited(found, ctx, query, entries),
                Tree::File { path, text, .. } => {
                    let shown = match below_on(ctx.root, path, ctx.windows) {
                        Some(rel) => rel,
                        None => path,
                    };
                    lemma_lines_limited(found, query, shown, lines_of(text), 0);
                },
                _ => {},
            }
        }
        law_hits_are_limited(next, ctx, query, s.skip(1));
    }
}

proof fn lemma_lines_limited(
    found: Found,
    query: Seq<char>,
    shown: Seq<char>,
    lines: Seq<Seq<char>>,
    i: int,
)
    requires
        found.hits <= MAX_HITS,
    ensures
        found.hits <= found.with_lines(query, shown, lines, i).hits <= MAX_HITS,
    decreases lines.len() - i,
{
    if 0 <= i < lines.len() && !found.is_full() {
        if occurs_in(lines[i], query) {
            let more = Found {
                out: found.out + hit_line(shown, (i + 1) as nat, lines[i]),
                hits: found.hits + 1,
            };
            lemma_lines_limited(more, query, shown, lines, i + 1);
        } else {
            lemma_lines_limited(found, query, shown, lines, i + 1);
        }
    }
}

} // verus!
