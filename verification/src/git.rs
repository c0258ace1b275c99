//! Git source control: reading `git`'s output and deciding what to run.
//!
//! The system `git` does the work in the project root. This keeps the binary lean
//! (no libgit2 dependency) and shows the user exactly what they'd see on the command
//! line, fitting ADE's "not a black box" stance.
use vstd::prelude::*;
use vstd::utf8::{decode_utf8, encode_utf8, encode_utf8_decode_utf8, is_char_boundary};

use crate::paths::{join, joined};
use crate::provider::sse::{lossy, lossy_text};
use crate::text::{
    after_prefix, cat2, chars_of, find_in, index_of_char, lines, lines_of, opt_view, parse_u32,
    position_of, push_char, split, split_at_first, split_of, strip_prefix, text_of, trim, trim_of,
    u32_value, views, words, words_of,
};

verus! {

/// One changed file in a status listing.
#[derive(Debug, PartialEq)]
pub struct GitFile {
    pub path: String,
    /// Single-letter status code: M/A/D/R/C/U/? .
    pub code: String,
    pub untracked: bool,
}

/// The model of a [`GitFile`].
#[verifier::ext_equal]
pub struct GitFileModel {
    pub path: Seq<char>,
    pub code: Seq<char>,
    pub untracked: bool,
}

impl View for GitFile {
    type V = GitFileModel;

    open spec fn view(&self) -> GitFileModel {
        GitFileModel { path: self.path@, code: self.code@, untracked: self.untracked }
    }
}

/// Working-tree status, split into staged (index) and unstaged changes.
#[derive(Debug)]
pub struct GitStatus {
    pub repo: bool,
    pub branch: String,
    pub ahead: u32,
    pub behind: u32,
    pub staged: Vec<GitFile>,
    pub unstaged: Vec<GitFile>,
}

/// The model of a [`GitStatus`].
#[verifier::ext_equal]
pub struct GitStatusModel {
    pub repo: bool,
    pub branch: Seq<char>,
    pub ahead: u32,
    pub behind: u32,
    pub staged: Seq<GitFileModel>,
    pub unstaged: Seq<GitFileModel>,
}

impl View for GitStatus {
    type V = GitStatusModel;

    open spec fn view(&self) -> GitStatusModel {
        GitStatusModel {
            repo: self.repo,
            branch: self.branch@,
            ahead: self.ahead,
            behind: self.behind,
            staged: views(self.staged@),
            unstaged: views(self.unstaged@),
        }
    }
}

/// The path behind a rename: `a -> b` stands for `b`.
pub open spec fn renamed(p: Seq<char>) -> Seq<char> {
    match find_in(p, " -> "@) {
        Some(k) => p.skip(k + " -> "@.len()),
        None => p,
    }
}

/// Take the post-rename path from a porcelain entry (`a -> b` gives `b`).
pub fn rename_target(p: &str) -> (r: String)
    ensures
        r@ == renamed(p@),
{
    let (whole, behind) = split_at_first(p, " -> ");
    match behind {
        Some(target) => target,
        None => whole,
    }
}

/// `s` up to the first bracket or blank.
pub open spec fn up_to_mark(s: Seq<char>) -> Seq<char>
    decreases s.len(),
{
    if s.len() == 0 || s[0] == '[' || s[0] == ' ' {
        Seq::empty()
    } else {
        seq![s[0]] + up_to_mark(s.skip(1))
    }
}

/// `s` up to the first `...`, behind which a branch line names the tracked branch.
pub open spec fn up_to_dots(s: Seq<char>) -> Seq<char> {
    match find_in(s, "..."@) {
        Some(k) => s.take(k),
        None => s,
    }
}

/// The branch that a branch line names, be it behind `No commits yet on`: everything up
/// to `...` (tracking), a bracket or the first blank.
pub open spec fn branch_name(rest: Seq<char>) -> Seq<char> {
    match after_prefix(rest, "No commits yet on "@) {
        Some(name) => {
            let split = words_of(up_to_dots(name));
            if split.len() > 0 {
                split[0]
            } else {
                Seq::empty()
            }
        },
        None => trim_of(up_to_mark(up_to_dots(rest))),
    }
}

/// What stands in the first pair of brackets, where there is one.
pub open spec fn tracking(rest: Seq<char>) -> Option<Seq<char>> {
    let open = index_of_char(rest, '[');
    let close = index_of_char(rest, ']');
    if open < rest.len() {
        Some(rest.subrange(open + 1, close))
    } else {
        None
    }
}

/// A count: zero where there is no number.
pub open spec fn count_of(n: Seq<char>) -> u32 {
    match u32_value(trim_of(n)) {
        Some(v) => v,
        None => 0,
    }
}

/// The counts ahead and behind after the parts of a tracking note.
pub open spec fn counts_after(start: (u32, u32), parts: Seq<Seq<char>>) -> (u32, u32)
    decreases parts.len(),
{
    if parts.len() == 0 {
        start
    } else {
        let before = counts_after(start, parts.drop_last());
        let part = trim_of(parts.last());
        match after_prefix(part, "ahead "@) {
            Some(n) => (count_of(n), before.1),
            None => match after_prefix(part, "behind "@) {
                Some(n) => (before.0, count_of(n)),
                None => before,
            },
        }
    }
}

/// The status after a branch line.
pub open spec fn with_branch(st: GitStatusModel, rest: Seq<char>) -> GitStatusModel {
    let counts = match tracking(rest) {
        Some(note) => counts_after((st.ahead, st.behind), split_of(note, ',')),
        None => (st.ahead, st.behind),
    };
    GitStatusModel { branch: branch_name(rest), ahead: counts.0, behind: counts.1, ..st }
}

/// A branch line whose brackets, if any, are in order.
pub open spec fn is_branch_line(rest: Seq<char>) -> bool {
    index_of_char(rest, '[') < rest.len() ==> index_of_char(rest, '[') < index_of_char(rest, ']')
}

/// The status of an entry in the index.
pub open spec fn index_code(line: Seq<char>) -> char {
    encode_utf8(line)[0] as char
}

/// The status of an entry in the working tree.
pub open spec fn tree_code(line: Seq<char>) -> char {
    encode_utf8(line)[1] as char
}

/// The path of an entry: what follows its first three bytes.
pub open spec fn entry_path(line: Seq<char>) -> Seq<char> {
    decode_utf8(encode_utf8(line).subrange(3, encode_utf8(line).len() as int))
}

/// A status letter that says something changed.
pub open spec fn is_change(c: char) -> bool {
    c != ' ' && c != '?'
}

pub open spec fn changed(line: Seq<char>, code: char) -> GitFileModel {
    GitFileModel { path: renamed(entry_path(line)), code: seq![code], untracked: false }
}

/// The status after an entry.
pub open spec fn with_entry(st: GitStatusModel, line: Seq<char>) -> GitStatusModel {
    let x = index_code(line);
    let y = tree_code(line);
    if x == '?' && y == '?' {
        GitStatusModel {
            unstaged: st.unstaged.push(
                GitFileModel { path: entry_path(line), code: "?"@, untracked: true },
            ),
            ..st
        }
    } else {
        GitStatusModel {
            staged: if is_change(x) {
                st.staged.push(changed(line, x))
            } else {
                st.staged
            },
            unstaged: if is_change(y) {
                st.unstaged.push(changed(line, y))
            } else {
                st.unstaged
            },
            ..st
        }
    }
}

/// The status after a line of `git status`.
pub open spec fn with_line(st: GitStatusModel, line: Seq<char>) -> GitStatusModel {
    match after_prefix(line, "## "@) {
        Some(rest) => with_branch(st, rest),
        None => if encode_utf8(line).len() < 3 {
            st
        } else {
            with_entry(st, line)
        },
    }
}

/// The status after lines of `git status`.
pub open spec fn with_lines(st: GitStatusModel, lines: Seq<Seq<char>>) -> GitStatusModel
    decreases lines.len(),
{
    if lines.len() == 0 {
        st
    } else {
        with_line(with_lines(st, lines.drop_last()), lines.last())
    }
}

/// A line that can be read: the brackets of a branch line are in order, and no
/// character of an entry reaches over its third byte.
pub open spec fn is_status_line(line: Seq<char>) -> bool {
    match after_prefix(line, "## "@) {
        Some(rest) => is_branch_line(rest),
        None => encode_utf8(line).len() >= 3 ==> is_char_boundary(encode_utf8(line), 3),
    }
}

/// An output of `git status` all of whose lines can be read.
pub open spec fn is_status(raw: Seq<char>) -> bool {
    forall|i: int| 0 <= i < lines_of(raw).len() ==> is_status_line(#[trigger] lines_of(raw)[i])
}

impl GitStatusModel {
    pub open spec fn none() -> GitStatusModel {
        GitStatusModel {
            repo: false,
            branch: Seq::empty(),
            ahead: 0,
            behind: 0,
            staged: Seq::empty(),
            unstaged: Seq::empty(),
        }
    }

    /// The status that an output of `git status` gives.
    pub open spec fn parsed(raw: Seq<char>) -> GitStatusModel {
        with_lines(GitStatusModel { repo: true, ..GitStatusModel::none() }, lines_of(raw))
    }
}

fn head_of(s: &str) -> (r: String)
    ensures
        r@ == up_to_mark(s@),
{
    let v = chars_of(s);
    let mut out = String::new();
    let mut i: usize = 0;
    assert(v@.skip(0) =~= v@);
    while i < v.len() && v[i] != '[' && v[i] != ' '
        invariant
            i <= v@.len(),
            up_to_mark(v@) == out@ + up_to_mark(v@.skip(i as int)),
        decreases v@.len() - i,
    {
        let ghost before = out@;
        assert(v@.skip(i as int)[0] == v@[i as int]);
        assert(v@.skip(i as int).skip(1) =~= v@.skip(i + 1));
        push_char(&mut out, v[i]);
        assert(before + (seq![v@[i as int]] + up_to_mark(v@.skip(i + 1))) =~= out@ + up_to_mark(
            v@.skip(i + 1),
        ));
        i += 1;
    }
    if i < v.len() {
        assert(v@.skip(i as int)[0] == v@[i as int]);
    }
    assert(up_to_mark(v@.skip(i as int)) =~= Seq::empty());
    assert(out@ + Seq::<char>::empty() =~= out@);
    out
}

fn count(n: &str) -> (r: u32)
    ensures
        r == count_of(n@),
{
    match parse_u32(trim(n).as_str()) {
        Some(v) => v,
        None => 0,
    }
}

/// Take in a branch line, e.g. `main...origin/main [ahead 1, behind 2]` or
/// `No commits yet on main`.
pub fn parse_branch_line(rest: &str, st: &mut GitStatus)
    requires
        is_branch_line(rest@),
    ensures
        final(st)@ == with_branch(old(st)@, rest@),
{
    match strip_prefix(rest, "No commits yet on ") {
        Some(name) => {
            let (head, _) = split_at_first(name.as_str(), "...");
            let split = words(head.as_str());
            st.branch = if split.len() > 0 {
                assert(views(split@)[0] == split@[0]@);
                split[0].clone()
            } else {
                String::new()
            };
        },
        None => {
            let (head, _) = split_at_first(rest, "...");
            st.branch = trim(head_of(head.as_str()).as_str());
        },
    }
    let v = chars_of(rest);
    assert(v@.skip(0) =~= v@);
    let open = position_of(&v, '[', 0);
    let close = position_of(&v, ']', 0);
    if open < v.len() {
        let note = text_of(&v, open + 1, close);
        let parts = split(note.as_str(), ',');
        let ghost all = views(parts@);
        let ghost start = (st.ahead, st.behind);
        let ghost kept = st@;
        let mut ahead: u32 = st.ahead;
        let mut behind: u32 = st.behind;
        let mut i: usize = 0;
        assert(all.take(0) =~= Seq::empty());
        while i < parts.len()
            invariant
                all == views(parts@),
                i <= parts@.len(),
                (ahead, behind) == counts_after(start, all.take(i as int)),
            decreases parts@.len() - i,
        {
            assert(all.take(i + 1).drop_last() =~= all.take(i as int));
            assert(all.take(i + 1).last() == parts@[i as int]@);
            let part = trim(parts[i].as_str());
            if let Some(n) = strip_prefix(part.as_str(), "ahead ") {
                ahead = count(n.as_str());
            } else if let Some(n) = strip_prefix(part.as_str(), "behind ") {
                behind = count(n.as_str());
            }
            i += 1;
        }
        assert(all.take(i as int) =~= all);
        st.ahead = ahead;
        st.behind = behind;
    }
}

fn one_letter(c: char) -> (r: String)
    ensures
        r@ == seq![c],
{
    let mut out = String::new();
    push_char(&mut out, c);
    assert(out@ =~= seq![c]);
    out
}

fn take_entry(line: &str, st: &mut GitStatus)
    requires
        encode_utf8(line@).len() >= 3,
        is_char_boundary(encode_utf8(line@), 3),
    ensures
        final(st)@ == with_entry(old(st)@, line@),
{
    let ghost before = st@;
    let bytes = line.as_bytes();
    let x: char = bytes[0] as char;
    let y: char = bytes[1] as char;
    let (_, behind) = line.split_at(3);
    let path = behind.to_owned();
    proof {
        encode_utf8_decode_utf8(path@);
        assert(encode_utf8(path@) =~= encode_utf8(line@).subrange(
            3,
            encode_utf8(line@).len() as int,
        ));
        assert(path@ == entry_path(line@));
    }
    if x == '?' && y == '?' {
        let file = GitFile { path, code: "?".to_owned(), untracked: true };
        st.unstaged.push(file);
        assert(st@.unstaged =~= before.unstaged.push(file@));
        return;
    }
    if x != ' ' && x != '?' {
        let file = GitFile {
            path: rename_target(path.as_str()),
            code: one_letter(x),
            untracked: false,
        };
        st.staged.push(file);
        assert(st@.staged =~= before.staged.push(file@));
    }
    if y != ' ' && y != '?' {
        let file = GitFile {
            path: rename_target(path.as_str()),
            code: one_letter(y),
            untracked: false,
        };
        st.unstaged.push(file);
        assert(st@.unstaged =~= before.unstaged.push(file@));
    }
}

/// Whether a line of `git status` can be read.
fn readable_line(line: &str) -> (r: bool)
    ensures
        r == is_status_line(line@),
{
    match strip_prefix(line, "## ") {
        Some(rest) => {
            let v = chars_of(rest.as_str());
            assert(v@.skip(0) =~= v@);
            let open = position_of(&v, '[', 0);
            let close = position_of(&v, ']', 0);
            open >= v.len() || open < close
        },
        None => line.as_bytes().len() < 3 || line.is_char_boundary(3),
    }
}

/// Whether an output of `git status` can be read.
pub fn readable(raw: &str) -> (r: bool)
    ensures
        r == is_status(raw@),
{
    let split = lines(raw);
    let ghost all = views(split@);
    let mut i: usize = 0;
    while i < split.len()
        invariant
            all == views(split@),
            all == lines_of(raw@),
            i <= split@.len(),
            forall|k: int| 0 <= k < i ==> is_status_line(#[trigger] all[k]),
        decreases split@.len() - i,
    {
        assert(all[i as int] == split@[i as int]@);
        if !readable_line(split[i].as_str()) {
            assert(!is_status_line(lines_of(raw@)[i as int]));
            return false;
        }
        i += 1;
    }
    true
}

impl GitStatus {
    pub fn not_a_repo() -> (r: GitStatus)
        ensures
            r@ == GitStatusModel::none(),
    {
        let r = GitStatus {
            repo: false,
            branch: String::new(),
            ahead: 0,
            behind: 0,
            staged: Vec::new(),
            unstaged: Vec::new(),
        };
        assert(r@.staged =~= Seq::empty());
        assert(r@.unstaged =~= Seq::empty());
        r
    }

    /// `git status --porcelain=v1 --branch` parsed into staged / unstaged lists plus
    /// branch tracking info.
    pub fn parse(raw: &str) -> (r: GitStatus)
        requires
            is_status(raw@),
        ensures
            r@ == GitStatusModel::parsed(raw@),
    {
        let mut st = GitStatus::not_a_repo();
        st.repo = true;
        let ghost start = st@;
        let split = lines(raw);
        let ghost all = views(split@);
        let mut i: usize = 0;
        assert(all.take(0) =~= Seq::empty());
        while i < split.len()
            invariant
                all == views(split@),
                all == lines_of(raw@),
                is_status(raw@),
                i <= split@.len(),
                st@ == with_lines(start, all.take(i as int)),
            decreases split@.len() - i,
        {
            assert(all.take(i + 1).drop_last() =~= all.take(i as int));
            assert(all.take(i + 1).last() == split@[i as int]@);
            assert(is_status_line(lines_of(raw@)[i as int]));
            let line = split[i].as_str();
            match strip_prefix(line, "## ") {
                Some(rest) => parse_branch_line(rest.as_str(), &mut st),
                None => {
                    if line.as_bytes().len() >= 3 {
                        take_entry(line, &mut st);
                    }
                },
            }
            i += 1;
        }
        assert(all.take(i as int) =~= all);
        st
    }
}

/// The status of a project, from what `git` said.
pub open spec fn status_of(inside_work_tree: bool, raw: Option<Seq<char>>) -> GitStatusModel {
    match raw {
        Some(text) => if inside_work_tree {
            GitStatusModel::parsed(text)
        } else {
            GitStatusModel::none()
        },
        None => GitStatusModel::none(),
    }
}

/// The status of a project, from what `git` said: without a repository, or where
/// `git status` fails, there is none.
pub fn git_status(inside_work_tree: bool, raw: Option<&str>) -> (r: GitStatus)
    requires
        inside_work_tree ==> match raw {
            Some(text) => is_status(text@),
            None => true,
        },
    ensures
        r@ == status_of(inside_work_tree, opt_view(raw)),
{
    if !inside_work_tree {
        return GitStatus::not_a_repo();
    }
    match raw {
        Some(text) => GitStatus::parse(text),
        None => GitStatus::not_a_repo(),
    }
}

/// What a run of `git` gives.
pub open spec fn run_of(success: bool, stdout: Seq<u8>, stderr: Seq<u8>) -> Result<
    Seq<char>,
    Seq<char>,
> {
    if success {
        Ok(lossy_text(stdout))
    } else {
        Err(trim_of(lossy_text(stderr)))
    }
}

/// What a run of `git` gives: its output, or what it said of its failure.
pub fn git_outcome(success: bool, stdout: &Vec<u8>, stderr: &Vec<u8>) -> (r: Result<String, String>)
    ensures
        match r {
            Ok(out) => run_of(success, stdout@, stderr@) == Ok::<Seq<char>, Seq<char>>(out@),
            Err(e) => run_of(success, stdout@, stderr@) == Err::<Seq<char>, Seq<char>>(e@),
        },
{
    if success {
        Ok(lossy(stdout))
    } else {
        Err(trim(lossy(stderr).as_str()))
    }
}

/// The message for a `git` that could not be run.
pub open spec fn not_run(message: Seq<char>) -> Seq<char> {
    "failed to run git: "@ + message
}

/// The message for a `git` that could not be run.
pub fn git_not_run(message: &str) -> (r: String)
    ensures
        r@ == not_run(message@),
{
    cat2("failed to run git: ", message)
}

fn args_of(fixed: &[&str], path: Option<&str>) -> (r: Vec<String>)
    ensures
        views(r@) == Seq::new(fixed@.len(), |i: int| fixed@[i]@) + (match path {
            Some(p) => seq![p@],
            None => Seq::empty(),
        }),
{
    let ghost names = Seq::new(fixed@.len(), |i: int| fixed@[i]@);
    let mut out: Vec<String> = Vec::new();
    let mut i: usize = 0;
    while i < fixed.len()
        invariant
            i <= fixed@.len(),
            out@.len() == i,
            forall|k: int| 0 <= k < i ==> (#[trigger] out@[k])@ == fixed@[k]@,
        decreases fixed@.len() - i,
    {
        out.push(fixed[i].to_owned());
        i += 1;
    }
    assert(views(out@) =~= names);
    match path {
        Some(p) => {
            out.push(p.to_owned());
            assert(views(out@) =~= names + seq![p@]);
        },
        None => {
            assert(views(out@) =~= names + Seq::empty());
        },
    }
    out
}

/// The arguments that ask whether there is a repository.
pub fn repo_args() -> (r: Vec<String>)
    ensures
        views(r@) == seq!["rev-parse"@, "--is-inside-work-tree"@],
{
    let r = args_of(&["rev-parse", "--is-inside-work-tree"], None);
    assert(views(r@) =~= seq!["rev-parse"@, "--is-inside-work-tree"@]);
    r
}

/// The arguments that ask for the status.
pub fn status_args() -> (r: Vec<String>)
    ensures
        views(r@) == seq!["status"@, "--porcelain=v1"@, "--branch"@],
{
    let r = args_of(&["status", "--porcelain=v1", "--branch"], None);
    assert(views(r@) =~= seq!["status"@, "--porcelain=v1"@, "--branch"@]);
    r
}

/// What `git` is to do with one path.
pub enum PathTask {
    /// Show its staged changes.
    DiffStaged,
    /// Show its changes in the working tree.
    Diff,
    /// Say whether it is tracked.
    Known,
    Stage,
    Unstage,
    /// Take back its changes in the working tree.
    Checkout,
}

/// The arguments for a task on a path.
pub open spec fn path_args(task: PathTask, path: Seq<char>) -> Seq<Seq<char>> {
    match task {
        PathTask::DiffStaged => seq!["diff"@, "--cached"@, "--"@, path],
        PathTask::Diff => seq!["diff"@, "--"@, path],
        PathTask::Known => seq![
            "--literal-pathspecs"@,
            "ls-files"@,
            "--error-unmatch"@,
            "--"@,
            path,
        ],
        PathTask::Stage => seq!["add"@, "--"@, path],
        PathTask::Unstage => seq!["reset"@, "-q"@, "HEAD"@, "--"@, path],
        PathTask::Checkout => seq!["checkout"@, "--"@, path],
    }
}

/// The arguments that ask for the diff of a file.
pub fn diff_args(path: &str, staged: bool) -> (r: Vec<String>)
    ensures
        views(r@) == path_args(
            if staged {
                PathTask::DiffStaged
            } else {
                PathTask::Diff
            },
            path@,
        ),
{
    if staged {
        let r = args_of(&["diff", "--cached", "--"], Some(path));
        assert(views(r@) =~= seq!["diff"@, "--cached"@, "--"@, path@]);
        r
    } else {
        let r = args_of(&["diff", "--"], Some(path));
        assert(views(r@) =~= seq!["diff"@, "--"@, path@]);
        r
    }
}

/// A diff that adds each of the lines.
pub open spec fn added_lines(path: Seq<char>, lines: Seq<Seq<char>>) -> Seq<char>
    decreases lines.len(),
{
    if lines.len() == 0 {
        "--- /dev/null\n+++ b/"@ + path + "\n"@
    } else {
        added_lines(path, lines.drop_last()) + "+"@ + lines.last() + "\n"@
    }
}

/// The arguments that ask whether a file is tracked: `git` fails where it is not.
pub fn tracked_args(path: &str) -> (r: Vec<String>)
    ensures
        views(r@) == path_args(PathTask::Known, path@),
{
    let r = args_of(&["--literal-pathspecs", "ls-files", "--error-unmatch", "--"], Some(path));
    assert(views(r@) =~= seq![
        "--literal-pathspecs"@,
        "ls-files"@,
        "--error-unmatch"@,
        "--"@,
        path@,
    ]);
    r
}

/// The diff to show for a file, from `git`'s own and the content of the file: an
/// untracked file, which has none of its own, is shown as all added.
pub open spec fn shown_diff(
    path: Seq<char>,
    staged: bool,
    untracked: bool,
    diff: Seq<char>,
    content: Option<Seq<char>>,
) -> Seq<char> {
    if staged || !untracked || trim_of(diff).len() > 0 {
        diff
    } else {
        match content {
            Some(text) => added_lines(path, lines_of(text)),
            None => Seq::empty(),
        }
    }
}

/// Whether `git`'s own diff is all there is to show, whether the file is tracked or
/// not; else an untracked file is shown by its content.
pub fn diff_suffices(staged: bool, diff: &str) -> (r: bool)
    ensures
        r == (staged || trim_of(diff@).len() > 0),
{
    staged || !trim(diff).as_str().is_empty()
}

/// Unified diff for one file (staged or working-tree). Untracked files are rendered
/// as an all-added diff so the panel can still show their contents.
pub fn git_diff(
    path: &str,
    staged: bool,
    untracked: bool,
    diff: &str,
    content: Option<&str>,
) -> (r: String)
    ensures
        r@ == shown_diff(path@, staged, untracked, diff@, opt_view(content)),
{
    if !untracked || diff_suffices(staged, diff) {
        return diff.to_owned();
    }
    let content = match content {
        Some(text) => text,
        None => return String::new(),
    };
    let split = lines(content);
    let ghost all = views(split@);
    let mut out = "--- /dev/null\n+++ b/".to_owned();
    out.append(path);
    out.append("\n");
    let mut i: usize = 0;
    assert(all.take(0) =~= Seq::empty());
    while i < split.len()
        invariant
            all == views(split@),
            i <= split@.len(),
            out@ == added_lines(path@, all.take(i as int)),
        decreases split@.len() - i,
    {
        assert(all.take(i + 1).drop_last() =~= all.take(i as int));
        assert(all.take(i + 1).last() == split@[i as int]@);
        out.append("+");
        out.append(split[i].as_str());
        out.append("\n");
        i += 1;
    }
    assert(all.take(i as int) =~= all);
    out
}

/// A tracked file is shown as `git` shows it, and so is every staged change; a file is
/// shown as all added only where it is untracked.
pub proof fn law_only_untracked_is_added(
    path: Seq<char>,
    staged: bool,
    untracked: bool,
    diff: Seq<char>,
    content: Option<Seq<char>>,
)
    ensures
        !untracked || staged ==> shown_diff(path, staged, untracked, diff, content) == diff,
        untracked && !staged && trim_of(diff).len() == 0 && content is Some ==> shown_diff(
            path,
            staged,
            untracked,
            diff,
            content,
        ) == added_lines(path, lines_of(content->Some_0)),
{
}

/// The arguments that stage a path.
pub fn git_stage(path: &str) -> (r: Vec<String>)
    ensures
        views(r@) == path_args(PathTask::Stage, path@),
{
    let r = args_of(&["add", "--"], Some(path));
    assert(views(r@) =~= seq!["add"@, "--"@, path@]);
    r
}

/// The arguments that unstage a path.
pub fn git_unstage(path: &str) -> (r: Vec<String>)
    ensures
        views(r@) == path_args(PathTask::Unstage, path@),
{
    let r = args_of(&["reset", "-q", "HEAD", "--"], Some(path));
    assert(views(r@) =~= seq!["reset"@, "-q"@, "HEAD"@, "--"@, path@]);
    r
}

/// The arguments that stage everything.
pub fn git_stage_all() -> (r: Vec<String>)
    ensures
        views(r@) == seq!["add"@, "-A"@],
{
    let r = args_of(&["add", "-A"], None);
    assert(views(r@) =~= seq!["add"@, "-A"@]);
    r
}

/// How to discard the changes of a path.
#[derive(Debug)]
pub enum Discard {
    /// Remove this file.
    Remove(String),
    /// Run `git` with these arguments.
    Git(Vec<String>),
}

/// Discard working-tree changes to a path. Untracked files are removed.
pub fn git_discard(cwd: &str, path: &str, untracked: bool) -> (r: Discard)
    ensures
        untracked ==> r is Remove && r->Remove_0@ == joined(cwd@, path@),
        !untracked ==> r is Git && views(r->Git_0@) == path_args(PathTask::Checkout, path@),
{
    if untracked {
        Discard::Remove(join(cwd, path))
    } else {
        let args = args_of(&["checkout", "--"], Some(path));
        assert(views(args@) =~= seq!["checkout"@, "--"@, path@]);
        Discard::Git(args)
    }
}

/// The arguments that commit the staged changes.
pub open spec fn commit_args(message: Seq<char>) -> Result<Seq<Seq<char>>, Seq<char>> {
    if trim_of(message).len() > 0 {
        Ok(seq!["commit"@, "-m"@, trim_of(message)])
    } else {
        Err("empty commit message"@)
    }
}

/// The arguments that commit the staged changes. A commit needs a message.
pub fn git_commit(message: &str) -> (r: Result<Vec<String>, String>)
    ensures
        match r {
            Ok(args) => commit_args(message@) == Ok::<Seq<Seq<char>>, Seq<char>>(views(args@)),
            Err(e) => commit_args(message@) == Err::<Seq<Seq<char>>, Seq<char>>(e@),
        },
{
    let msg = trim(message);
    if msg.as_str().is_empty() {
        return Err("empty commit message".to_owned());
    }
    let r = args_of(&["commit", "-m"], Some(msg.as_str()));
    assert(views(r@) =~= seq!["commit"@, "-m"@, trim_of(message@)]);
    Ok(r)
}

proof fn lemma_encode_ascii(c: char, rest: Seq<char>)
    requires
        c as u32 <= 0x7f,
    ensures
        encode_utf8(seq![c] + rest) == seq![c as u8] + encode_utf8(rest),
{
    let s = seq![c] + rest;
    assert(s.drop_first() =~= rest);
    assert(s[0] == c);
    let v = c as u32;
    assert(v & 0x7f == v) by (bit_vector)
        requires
            v <= 0x7f,
    ;
    assert(encode_utf8(s) =~= seq![c as u8] + encode_utf8(rest));
}

/// An entry reads as it is written: two status letters, a blank, and the path.
pub proof fn law_entry_reads(x: char, y: char, path: Seq<char>)
    requires
        x as u32 <= 0x7f,
        y as u32 <= 0x7f,
    ensures
        ({
            let line = seq![x, y, ' '] + path;
            &&& encode_utf8(line).len() >= 3
            &&& index_code(line) == x
            &&& tree_code(line) == y
            &&& entry_path(line) == path
        }),
{
    let line = seq![x, y, ' '] + path;
    let a = seq![y] + (seq![' '] + path);
    assert(line =~= seq![x] + a);
    lemma_encode_ascii(x, a);
    lemma_encode_ascii(y, seq![' '] + path);
    lemma_encode_ascii(' ', path);
    let bytes = encode_utf8(line);
    assert(bytes =~= seq![x as u8, y as u8, ' ' as u8] + encode_utf8(path));
    assert(bytes.subrange(3, bytes.len() as int) =~= encode_utf8(path));
    encode_utf8_decode_utf8(path);
}

/// A file that is changed both in the index and in the working tree is listed under
/// both; one that is changed in neither is not listed; an untracked one is listed
/// once, as unstaged.
pub proof fn law_entry_lists(st: GitStatusModel, x: char, y: char, path: Seq<char>)
    requires
        x as u32 <= 0x7f,
        y as u32 <= 0x7f,
    ensures
        ({
            let after = with_entry(st, seq![x, y, ' '] + path);
            if x == '?' && y == '?' {
                &&& after.staged == st.staged
                &&& after.unstaged == st.unstaged.push(
                    GitFileModel { path, code: "?"@, untracked: true },
                )
            } else {
                &&& after.staged.len() == st.staged.len() + (if is_change(x) {
                    1int
                } else {
                    0
                })
                &&& after.unstaged.len() == st.unstaged.len() + (if is_change(y) {
                    1int
                } else {
                    0
                })
                &&& is_change(x) ==> after.staged.last() == (GitFileModel {
                    path: renamed(path),
                    code: seq![x],
                    untracked: false,
                })
                &&& is_change(y) ==> after.unstaged.last() == (GitFileModel {
                    path: renamed(path),
                    code: seq![y],
                    untracked: false,
                })
            }
        }),
{
    law_entry_reads(x, y, path);
}

} // verus!
