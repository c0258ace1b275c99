//! What is read from `git`, and what it is told.
use vstd::prelude::*;

use crate::git::{
    added_lines, commit_args, counts_after, is_status_line, path_args, renamed, run_of, shown_diff,
    status_of, with_line, with_lines, GitStatusModel, PathTask,
};
use crate::provider::sse::lossy_text;
use crate::text::{
    decimal_of, find_in, has_prefix, index_of_char, is_space, lemma_find_from,
    lemma_index_of_char_unique, lines_of, occurs_at, split_of, trim_of, words_of,
};

verus! {

/// A name of a branch: no blank, no bracket, and no dots that could be taken for those
/// behind it.
pub open spec fn is_branch(name: Seq<char>) -> bool {
    &&& name.len() > 0
    &&& forall|i: int|
        0 <= i < name.len() ==> !is_space(#[trigger] name[i]) && name[i] != '[' && name[i] != ']'
            && name[i] != ' '
    &&& forall|j: int| 0 <= j < name.len() ==> !occurs_at(name + "..."@, "..."@, j)
}

proof fn lemma_unspaced(s: Seq<char>)
    requires
        s.len() > 0,
        forall|i: int| 0 <= i < s.len() ==> !is_space(#[trigger] s[i]),
    ensures
        trim_of(s) == s,
{
    assert(!is_space(s[0]));
    assert(!is_space(s[s.len() - 1]));
    assert(crate::text::trim_start_of(s) == s);
}

proof fn lemma_marked(a: Seq<char>, b: Seq<char>)
    requires
        forall|i: int| 0 <= i < a.len() ==> a[i] != '[' && a[i] != ' ',
        b.len() > 0 ==> b[0] == '[' || b[0] == ' ',
    ensures
        crate::git::up_to_mark(a + b) == a,
    decreases a.len(),
{
    if a.len() == 0 {
        assert(a + b =~= b);
        assert(crate::git::up_to_mark(b) =~= a);
    } else {
        assert((a + b).skip(1) =~= a.skip(1) + b);
        lemma_marked(a.skip(1), b);
        assert(seq![a[0]] + a.skip(1) =~= a);
    }
}

proof fn lemma_dotted(name: Seq<char>, behind: Seq<char>)
    requires
        is_branch(name),
    ensures
        find_in(name + "..."@ + behind, "..."@) == Some(name.len() as int),
        crate::git::branch_name(name + "..."@ + behind) == name,
{
    reveal_strlit("...");
    reveal_strlit("No commits yet on ");
    let s = name + "..."@ + behind;
    let n = name.len() as int;
    assert(s.subrange(n, n + 3) =~= "..."@);
    assert(occurs_at(s, "..."@, n));
    lemma_find_from(s, "..."@, 0);
    let k = find_in(s, "..."@)->Some_0;
    if k < n {
        assert(s.subrange(k, k + 3) =~= (name + "..."@).subrange(k, k + 3));
        assert(occurs_at(name + "..."@, "..."@, k));
    }
    assert(s.take(n) =~= name);
    lemma_marked(name, Seq::empty());
    assert(name + Seq::<char>::empty() =~= name);
    lemma_unspaced(name);
    lemma_no_news(s, name);
}

proof fn lemma_no_news(s: Seq<char>, name: Seq<char>)
    requires
        is_branch(name),
        s.len() >= name.len(),
        s.take(name.len() as int) == name,
        name.len() < s.len() ==> s[name.len() as int] == '.' || s[name.len() as int] == '[',
        name.len() + 1 < s.len() && s[name.len() as int] == '.' ==> s[name.len() as int + 1] == '.',
        name.len() < s.len() && s[name.len() as int] == '[' ==> name.len() >= 3,
    ensures
        !has_prefix(s, "No commits yet on "@),
{
    reveal_strlit("No commits yet on ");
    if has_prefix(s, "No commits yet on "@) {
        let p = s.subrange(0, 18);
        assert(p[0] == 'N' && p[1] == 'o' && p[2] == ' ');
        assert(s[2] == ' ' && s[1] == 'o');
        if name.len() > 2 {
            assert(s.take(name.len() as int)[2] == name[2]);
        } else if name.len() == 2 {
            assert(s[2] == '.');
        } else {
            assert(s[1] == '.');
        }
    }
}

/// A branch that tracks another is read by its name, without the counts where none are
/// given.
pub proof fn law_branch_is_read(st: GitStatusModel, name: Seq<char>, upstream: Seq<char>)
    requires
        is_branch(name),
        forall|i: int| 0 <= i < upstream.len() ==> upstream[i] != '[',
    ensures
        with_line(st, "## "@ + (name + "..."@ + upstream)) == (GitStatusModel {
            branch: name,
            ..st
        }),
        with_line(st, "## "@ + name) == (GitStatusModel { branch: name, ..st }),
{
    reveal_strlit("## ");
    reveal_strlit("...");
    let rest = name + "..."@ + upstream;
    lemma_headed(rest);
    lemma_headed(name);
    lemma_dotted(name, upstream);
    lemma_index_of_char_unique(rest, '[', rest.len() as int);
    lemma_index_of_char_unique(name, '[', name.len() as int);
    lemma_find_from(name, "..."@, 0);
    if let Some(k) = find_in(name, "..."@) {
        assert(name.subrange(k, k + 3) =~= (name + "..."@).subrange(k, k + 3));
        assert(occurs_at(name + "..."@, "..."@, k));
    }
    lemma_marked(name, Seq::empty());
    assert(name + Seq::<char>::empty() =~= name);
    lemma_unspaced(name);
    assert(name.take(name.len() as int) =~= name);
    lemma_no_news(name, name);
}

proof fn lemma_headed(rest: Seq<char>)
    ensures
        crate::text::after_prefix("## "@ + rest, "## "@) == Some(rest),
{
    let line = "## "@ + rest;
    assert(line.subrange(0, "## "@.len() as int) =~= "## "@);
    assert(occurs_at(line, "## "@, 0));
    assert(line.skip("## "@.len() as int) =~= rest);
}

/// A branch without commits is read by its name.
pub proof fn law_new_branch_is_read(st: GitStatusModel, name: Seq<char>)
    requires
        is_branch(name),
    ensures
        with_line(st, "## "@ + ("No commits yet on "@ + name)) == (GitStatusModel {
            branch: name,
            ..st
        }),
{
    reveal_strlit("No commits yet on ");
    reveal_strlit("...");
    let rest = "No commits yet on "@ + name;
    lemma_headed(rest);
    assert(rest.subrange(0, 18) =~= "No commits yet on "@);
    assert(occurs_at(rest, "No commits yet on "@, 0));
    assert(rest.skip(18) =~= name);
    lemma_find_from(name, "..."@, 0);
    if let Some(k) = find_in(name, "..."@) {
        assert(name.subrange(k, k + 3) =~= (name + "..."@).subrange(k, k + 3));
        assert(occurs_at(name + "..."@, "..."@, k));
    }
    let none = Seq::<char>::empty();
    assert(none + name + none =~= name);
    crate::laws::text::law_first_word(none, name, none);
    assert(words_of(name)[0] == name);
    assert forall|i: int| 0 <= i < rest.len() implies rest[i] != '[' by {
        if i < 18 {
            assert(rest[i] == "No commits yet on "@[i]);
        } else {
            assert(rest[i] == name[i - 18]);
        }
    }
    lemma_index_of_char_unique(rest, '[', rest.len() as int);
}

proof fn lemma_number(n: u32)
    ensures
        crate::git::count_of(decimal_of(n as nat)) == n,
        decimal_of(n as nat).len() > 0,
        forall|i: int|
            0 <= i < decimal_of(n as nat).len() ==> '0' <= #[trigger] decimal_of(n as nat)[i]
                && decimal_of(n as nat)[i] <= '9',
{
    crate::laws::text::law_u32_reads(n);
    crate::laws::text::law_decimal_digits(n as nat);
    let s = decimal_of(n as nat);
    assert forall|i: int| 0 <= i < s.len() implies !is_space(#[trigger] s[i]) by {
        assert('0' <= s[i] && s[i] <= '9');
    }
    lemma_unspaced(s);
}

/// The note on how far a branch is ahead, as `git` writes it.
pub open spec fn ahead_note(n: u32) -> Seq<char> {
    "ahead "@ + decimal_of(n as nat)
}

/// The note on how far a branch is behind, as `git` writes it.
pub open spec fn behind_note(n: u32) -> Seq<char> {
    "behind "@ + decimal_of(n as nat)
}

proof fn lemma_notes(start: (u32, u32), a: u32, b: u32)
    ensures
        counts_after(start, seq![ahead_note(a)]) == (a, start.1),
        counts_after(start, seq![behind_note(b)]) == (start.0, b),
        counts_after(start, seq![ahead_note(a), seq![' '] + behind_note(b)]) == (a, b),
        !ahead_note(a).contains('[') && !ahead_note(a).contains(']') && !ahead_note(a).contains(
            ',',
        ),
        !behind_note(b).contains('[') && !behind_note(b).contains(']') && !behind_note(
            b,
        ).contains(','),
{
    reveal_strlit("ahead ");
    reveal_strlit("behind ");
    lemma_number(a);
    lemma_number(b);
    let x = ahead_note(a);
    let y = behind_note(b);
    let z = seq![' '] + y;
    let da = decimal_of(a as nat);
    let db = decimal_of(b as nat);
    assert(x.last() == da.last() && y.last() == db.last());
    assert(da[da.len() - 1] <= '9' && db[db.len() - 1] <= '9');
    assert(!is_space(x[0]) && !is_space(x.last()) && !is_space(y[0]) && !is_space(y.last()));
    assert(crate::text::trim_start_of(x) == x);
    assert(crate::text::trim_start_of(y) == y);
    assert(z.skip(1) =~= y);
    assert(is_space(' '));
    assert(crate::text::trim_start_of(z) == y);
    assert(trim_of(x) == x && trim_of(y) == y && trim_of(z) == y);
    assert(x.subrange(0, 6) =~= "ahead "@);
    assert(occurs_at(x, "ahead "@, 0));
    assert(x.skip(6) =~= da);
    assert(y.subrange(0, 7) =~= "behind "@);
    assert(occurs_at(y, "behind "@, 0));
    assert(y.skip(7) =~= db);
    if occurs_at(y, "ahead "@, 0) {
        assert(y.subrange(0, 6)[0] == 'b');
    }
    let none = Seq::<Seq<char>>::empty();
    assert(seq![x].drop_last() =~= none);
    assert(seq![y].drop_last() =~= none);
    assert(seq![x, z].drop_last() =~= seq![x]);
    assert(counts_after(start, none) == start);
    assert(counts_after(start, seq![x]) == (a, start.1));
    assert(seq![x, z].last() == z);
    assert forall|i: int| 0 <= i < x.len() implies x[i] != '[' && x[i] != ']' && x[i] != ',' by {
        if i < 6 {
            assert(x[i] == "ahead "@[i]);
        } else {
            assert(x[i] == da[i - 6]);
        }
    }
    assert forall|i: int| 0 <= i < y.len() implies y[i] != '[' && y[i] != ']' && y[i] != ',' by {
        if i < 7 {
            assert(y[i] == "behind "@[i]);
        } else {
            assert(y[i] == db[i - 7]);
        }
    }
}

/// The numbers of commits that a branch is ahead and behind are those in the brackets; one
/// that is not given stays.
pub proof fn law_counts_are_read(
    st: GitStatusModel,
    name: Seq<char>,
    upstream: Seq<char>,
    a: u32,
    b: u32,
)
    requires
        is_branch(name),
        forall|i: int| 0 <= i < upstream.len() ==> upstream[i] != '[' && upstream[i] != ']',
    ensures
        ({
            let head = "## "@ + (name + "..."@ + upstream);
            let both = with_line(
                st,
                head + (" ["@ + ahead_note(a) + ", "@ + behind_note(b) + "]"@),
            );
            let ahead = with_line(st, head + (" ["@ + ahead_note(a) + "]"@));
            let behind = with_line(st, head + (" ["@ + behind_note(b) + "]"@));
            &&& both == (GitStatusModel { branch: name, ahead: a, behind: b, ..st })
            &&& ahead == (GitStatusModel { branch: name, ahead: a, ..st })
            &&& behind == (GitStatusModel { branch: name, behind: b, ..st })
        }),
{
    reveal_strlit(" [");
    reveal_strlit("]");
    reveal_strlit(", ");
    lemma_notes((st.ahead, st.behind), a, b);
    let x = ahead_note(a);
    let y = behind_note(b);
    let z = seq![' '] + y;
    let two = x + ", "@ + y;
    assert(two =~= x.push(',') + z);
    assert(!two.contains('[') && !two.contains(']')) by {
        assert forall|i: int| 0 <= i < two.len() implies two[i] != '[' && two[i] != ']' by {
            if i < x.len() {
                assert(x.contains(x[i]));
            } else if i >= x.len() + 2 {
                assert(y.contains(y[i - x.len() - 2]));
            }
        }
    }
    assert(!z.contains(',')) by {
        assert forall|i: int| 0 <= i < z.len() implies z[i] != ',' by {
            if i > 0 {
                assert(y.contains(y[i - 1]));
            }
        }
    }
    lemma_pieces(x, z);
    lemma_one_piece(x);
    lemma_one_piece(y);
    lemma_bracketed(st, name, upstream, two);
    lemma_bracketed(st, name, upstream, x);
    lemma_bracketed(st, name, upstream, y);
    assert(" ["@ + two + "]"@ =~= " ["@ + x + ", "@ + y + "]"@);
}

proof fn lemma_one_piece(x: Seq<char>)
    requires
        !x.contains(','),
    ensures
        split_of(x, ',') == seq![x],
{
    assert forall|j: int| 0 <= j < x.len() implies x[j] != ',' by {
        assert(x.contains(x[j]));
    }
    lemma_index_of_char_unique(x, ',', x.len() as int);
}

proof fn lemma_pieces(x: Seq<char>, z: Seq<char>)
    requires
        !x.contains(','),
        !z.contains(','),
    ensures
        split_of(x.push(',') + z, ',') == seq![x, z],
{
    let s = x.push(',') + z;
    assert forall|j: int| 0 <= j < x.len() implies s[j] != ',' by {
        assert(x.contains(x[j]));
    }
    lemma_index_of_char_unique(s, ',', x.len() as int);
    assert(s.take(x.len() as int) =~= x);
    assert(s.skip(x.len() as int + 1) =~= z);
    lemma_one_piece(z);
    assert(seq![x] + seq![z] =~= seq![x, z]);
}

proof fn lemma_bracketed(
    st: GitStatusModel,
    name: Seq<char>,
    upstream: Seq<char>,
    note: Seq<char>,
)
    requires
        is_branch(name),
        forall|i: int| 0 <= i < upstream.len() ==> upstream[i] != '[' && upstream[i] != ']',
        !note.contains('['),
        !note.contains(']'),
    ensures
        ({
            let line = "## "@ + (name + "..."@ + upstream) + (" ["@ + note + "]"@);
            let counts = counts_after((st.ahead, st.behind), split_of(note, ','));
            with_line(st, line) == (GitStatusModel {
                branch: name,
                ahead: counts.0,
                behind: counts.1,
                ..st
            })
        }),
{
    reveal_strlit("...");
    let tail = " ["@ + note + "]"@;
    let behind = upstream + tail;
    let rest = name + "..."@ + behind;
    let head = name + "..."@ + upstream;
    assert("## "@ + head + tail =~= "## "@ + rest);
    lemma_headed(rest);
    lemma_dotted(name, behind);
    assert forall|i: int| 0 <= i < head.len() implies head[i] != '[' && head[i] != ']' by {
        if i < name.len() {
            assert(head[i] == name[i]);
        } else if i >= name.len() + 3 {
            assert(head[i] == upstream[i - name.len() - 3]);
        }
    }
    assert(rest =~= head + tail);
    lemma_brackets(head, note);
}

proof fn lemma_brackets(head: Seq<char>, note: Seq<char>)
    requires
        forall|i: int| 0 <= i < head.len() ==> head[i] != '[' && head[i] != ']',
        !note.contains('['),
        !note.contains(']'),
    ensures
        ({
            let rest = head + (" ["@ + note + "]"@);
            let k = head.len() as int + 1;
            &&& index_of_char(rest, '[') == k
            &&& index_of_char(rest, ']') == k + 1 + note.len()
            &&& k < rest.len()
            &&& rest.subrange(k + 1, k + 1 + note.len()) == note
        }),
{
    reveal_strlit(" [");
    reveal_strlit("]");
    let rest = head + (" ["@ + note + "]"@);
    let k = head.len() as int + 1;
    assert forall|i: int| 0 <= i < k implies rest[i] != '[' && rest[i] != ']' by {
        if i < head.len() {
            assert(rest[i] == head[i]);
        }
    }
    assert(rest[k] == '[');
    lemma_index_of_char_unique(rest, '[', k);
    let m = k + 1 + note.len();
    assert(rest[m] == ']');
    assert forall|i: int| 0 <= i < m implies rest[i] != ']' by {
        if i > k {
            assert(rest[i] == note[i - k - 1]);
            assert(note.contains(note[i - k - 1]));
        }
    }
    lemma_index_of_char_unique(rest, ']', m);
    assert(rest.subrange(k + 1, m) =~= note);
}

/// A file that was renamed goes by its new name, any other by its own.
pub proof fn law_new_name_counts(from: Seq<char>, to: Seq<char>)
    ensures
        (forall|j: int| 0 <= j < from.len() ==> !occurs_at(from + " -> "@ + to, " -> "@, j))
            ==> renamed(from + " -> "@ + to) == to,
        (forall|j: int| !occurs_at(to, " -> "@, j)) ==> renamed(to) == to,
{
    reveal_strlit(" -> ");
    let s = from + " -> "@ + to;
    let n = from.len() as int;
    assert(s.subrange(n, n + 4) =~= " -> "@);
    assert(occurs_at(s, " -> "@, n));
    lemma_find_from(s, " -> "@, 0);
    lemma_find_from(to, " -> "@, 0);
    assert(s.skip(n + 4) =~= to);
}

/// The status is what the lines say, one after the other, in a repository.
pub proof fn law_status_is_its_lines(st: GitStatusModel, lines: Seq<Seq<char>>, line: Seq<char>, raw: Seq<char>)
    ensures
        with_lines(st, Seq::empty()) == st,
        with_lines(st, lines.push(line)) == with_line(with_lines(st, lines), line),
        GitStatusModel::parsed(raw) == with_lines(
            GitStatusModel {
                repo: true,
                branch: Seq::empty(),
                ahead: 0,
                behind: 0,
                staged: Seq::empty(),
                unstaged: Seq::empty(),
            },
            lines_of(raw),
        ),
        status_of(true, Some(raw)) == GitStatusModel::parsed(raw),
        !status_of(false, Some(raw)).repo,
        !status_of(true, None).repo,
        !status_of(false, None).repo,
{
    assert(lines.push(line).drop_last() =~= lines);
}

/// An entry adds to the lists alone: a branch line leaves them, and an entry leaves the rest.
pub proof fn law_lines_say_one_thing(st: GitStatusModel, line: Seq<char>)
    ensures
        has_prefix(line, "## "@) ==> with_line(st, line).staged == st.staged && with_line(
            st,
            line,
        ).unstaged == st.unstaged,
        !has_prefix(line, "## "@) ==> with_line(st, line).branch == st.branch && with_line(
            st,
            line,
        ).ahead == st.ahead && with_line(st, line).behind == st.behind,
        with_line(st, line).repo == st.repo,
{
}

/// A path is told to `git` behind two dashes, as the last argument, so that no path can be
/// taken for an option; what comes before does not depend on it.
pub proof fn law_paths_stand_last(task: PathTask, path: Seq<char>, other: Seq<char>)
    ensures
        ({
            let args = path_args(task, path);
            &&& args.len() >= 3
            &&& args.last() == path
            &&& args[args.len() - 2] == "--"@
            &&& args.drop_last() == path_args(task, other).drop_last()
        }),
{
    assert(path_args(task, path).drop_last() =~= path_args(task, other).drop_last());
}

/// A commit has the message, without the blanks around it; without a message there is none.
pub proof fn law_commit_has_its_message(message: Seq<char>)
    ensures
        commit_args(message) is Ok <==> trim_of(message).len() > 0,
        commit_args(message) matches Ok(args) ==> args.len() == 3 && args[0] == "commit"@ && args[1]
            == "-m"@ && args[2] == trim_of(message),
        commit_args(message) matches Err(e) ==> e == "empty commit message"@,
{
}

/// A run that succeeds gives what it printed, as it is; one that fails gives what it said of
/// the failure.
pub proof fn law_run(stdout: Seq<u8>, stderr: Seq<u8>)
    ensures
        run_of(true, stdout, stderr) == Ok::<Seq<char>, Seq<char>>(lossy_text(stdout)),
        run_of(false, stdout, stderr) == Err::<Seq<char>, Seq<char>>(trim_of(lossy_text(stderr))),
{
}

/// An untracked file is shown with every line of it added, behind a head that names it.
pub proof fn law_added_file(path: Seq<char>, lines: Seq<Seq<char>>, line: Seq<char>)
    ensures
        added_lines(path, Seq::empty()) == "--- /dev/null\n+++ b/"@ + path + "\n"@,
        added_lines(path, lines.push(line)) == added_lines(path, lines) + "+"@ + line + "\n"@,
{
    assert(lines.push(line).drop_last() =~= lines);
}

/// What `git` shows of a file is what is shown, wherever it shows anything; of an untracked
/// file that cannot be read nothing is shown.
pub proof fn law_shown_diff(
    path: Seq<char>,
    staged: bool,
    untracked: bool,
    diff: Seq<char>,
    content: Option<Seq<char>>,
)
    ensures
        trim_of(diff).len() > 0 ==> shown_diff(path, staged, untracked, diff, content) == diff,
        !staged && untracked && trim_of(diff).len() == 0 && content is None ==> shown_diff(
            path,
            staged,
            untracked,
            diff,
            content,
        ).len() == 0,
        !staged && untracked && trim_of(diff).len() == 0 ==> (content matches Some(text)
            ==> shown_diff(path, staged, untracked, diff, content) == added_lines(
            path,
            lines_of(text),
        )),
{
}

/// Behind a branch line without a name there is no branch.
pub proof fn law_no_branch(st: GitStatusModel)
    ensures
        with_line(st, "## "@ + "No commits yet on "@).branch.len() == 0,
{
    reveal_strlit("No commits yet on ");
    reveal_strlit("...");
    let rest = "No commits yet on "@;
    lemma_headed(rest);
    assert(rest.subrange(0, 18) =~= rest);
    assert(occurs_at(rest, rest, 0));
    assert(rest.skip(18) =~= Seq::empty());
    let none = Seq::<char>::empty();
    assert(find_in(none, "..."@) is None);
    assert(words_of(none).len() == 0);
}

/// A line that is no branch line and holds a status is an entry; one that is too short for
/// that says nothing.
pub proof fn law_entries(st: GitStatusModel, line: Seq<char>)
    requires
        !has_prefix(line, "## "@),
    ensures
        vstd::utf8::encode_utf8(line).len() >= 3 ==> with_line(st, line) == crate::git::with_entry(
            st,
            line,
        ),
        vstd::utf8::encode_utf8(line).len() < 3 ==> with_line(st, line) == st,
{
}

/// A branch line can be read without brackets, and not with one that closes before it opens.
pub proof fn law_readable(name: Seq<char>)
    requires
        forall|i: int| 0 <= i < name.len() ==> name[i] != '[',
    ensures
        is_status_line("## "@ + name),
        !is_status_line("## "@ + ("]["@ + name)),
{
    reveal_strlit("][");
    lemma_headed(name);
    lemma_index_of_char_unique(name, '[', name.len() as int);
    let rest = "]["@ + name;
    lemma_headed(rest);
    lemma_index_of_char_unique(rest, '[', 1);
    lemma_index_of_char_unique(rest, ']', 0);
}

/// What is asked of `git` for a path.
pub proof fn law_tasks(path: Seq<char>)
    ensures
        path_args(PathTask::Diff, path)[0] == "diff"@ && path_args(PathTask::Diff, path).len() == 3,
        path_args(PathTask::DiffStaged, path)[0] == "diff"@ && path_args(
            PathTask::DiffStaged,
            path,
        )[1] == "--cached"@ && path_args(PathTask::DiffStaged, path).len() == 4,
        path_args(PathTask::Stage, path)[0] == "add"@ && path_args(PathTask::Stage, path).len()
            == 3,
        path_args(PathTask::Unstage, path).take(3) == seq!["reset"@, "-q"@, "HEAD"@],
        path_args(PathTask::Unstage, path).len() == 5,
        path_args(PathTask::Checkout, path)[0] == "checkout"@ && path_args(
            PathTask::Checkout,
            path,
        ).len() == 3,
        path_args(PathTask::Known, path).take(3) == seq![
            "--literal-pathspecs"@,
            "ls-files"@,
            "--error-unmatch"@,
        ],
        path_args(PathTask::Known, path).len() == 5,
{
    assert(path_args(PathTask::Unstage, path).take(3) =~= seq!["reset"@, "-q"@, "HEAD"@]);
    assert(path_args(PathTask::Known, path).take(3) =~= seq![
        "--literal-pathspecs"@,
        "ls-files"@,
        "--error-unmatch"@,
    ]);
}

/// What stands behind the name of a branch and a blank is a remark.
pub proof fn law_remarks_do_not_matter(st: GitStatusModel, name: Seq<char>, remark: Seq<char>)
    requires
        is_branch(name),
        name != "No"@,
        forall|i: int| 0 <= i < name.len() ==> name[i] != '.',
        forall|i: int| 0 <= i < remark.len() ==> remark[i] != '[' && remark[i] != '.',
    ensures
        with_line(st, "## "@ + (name + " "@ + remark)) == (GitStatusModel { branch: name, ..st }),
{
    reveal_strlit(" ");
    reveal_strlit("No");
    reveal_strlit("...");
    reveal_strlit("No commits yet on ");
    let rest = name + " "@ + remark;
    lemma_headed(rest);
    assert forall|i: int| 0 <= i < rest.len() implies rest[i] != '[' && rest[i] != '.' by {
        if i < name.len() {
            assert(rest[i] == name[i]);
        } else if i > name.len() {
            assert(rest[i] == remark[i - name.len() - 1]);
        }
    }
    lemma_find_from(rest, "..."@, 0);
    if let Some(k) = find_in(rest, "..."@) {
        assert(rest.subrange(k, k + 3)[0] == rest[k]);
    }
    assert(rest =~= name + (" "@ + remark));
    lemma_marked(name, " "@ + remark);
    lemma_unspaced(name);
    lemma_index_of_char_unique(rest, '[', rest.len() as int);
    if has_prefix(rest, "No commits yet on "@) {
        let p = rest.subrange(0, 18);
        assert(p[0] == 'N' && p[1] == 'o' && p[2] == ' ');
        assert(rest[0] == 'N' && rest[1] == 'o' && rest[2] == ' ');
        if name.len() > 2 {
            assert(rest[2] == name[2]);
        } else if name.len() == 2 {
            assert(rest[0] == name[0] && rest[1] == name[1]);
            assert(name =~= "No"@);
        } else {
            assert(rest[1] == ' ');
        }
    }
}

} // verus!
