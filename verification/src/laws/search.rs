//! What a search finds.
use vstd::prelude::*;

use crate::text::{decimal_of, lines_of, occurs_at, trim_of};
use crate::tools::search::{
    is_skipped, walked, EntryKind, EntryModel, Found, Tree, WalkModel, WalkStepModel,
};
use crate::tools::ContextModel;

verus! {

/// Hidden entries are passed over, and the directories of version control, builds and
/// packages; every other file and directory is looked into.
pub proof fn law_skipped(e: EntryModel)
    ensures
        e.name.len() > 0 && e.name[0] == '.' ==> is_skipped(e),
        e.kind == EntryKind::Dir && (e.name == "target"@ || e.name == "node_modules"@)
            ==> is_skipped(e),
        is_skipped(e) ==> e.name.len() > 0 && e.name[0] == '.' || e.kind == EntryKind::Dir
            && (e.name == "target"@ || e.name == "node_modules"@),
{
    reveal_strlit(".git");
    reveal_strlit(".ade");
    assert(".git"@[0] == '.' && ".ade"@[0] == '.' && ".git"@.len() == 4 && ".ade"@.len() == 4);
}

/// Up to the limit, a line that holds the query is put out behind the file and the number of
/// the line, and any other line is not.
pub proof fn law_lines_are_found(
    found: Found,
    query: Seq<char>,
    shown: Seq<char>,
    lines: Seq<Seq<char>>,
    i: int,
)
    requires
        0 <= i < lines.len(),
        found.hits < 200,
    ensures
        ({
            let all = found.with_lines(query, shown, lines, i);
            let line = shown + ":"@ + decimal_of((i + 1) as nat) + ": "@ + trim_of(lines[i]) + "\n"@;
            &&& (exists|k: int| #[trigger] occurs_at(lines[i], query, k)) ==> all == (Found {
                out: found.out + line,
                hits: found.hits + 1,
            }).with_lines(query, shown, lines, i + 1)
            &&& !(exists|k: int| #[trigger] occurs_at(lines[i], query, k)) ==> all
                == found.with_lines(query, shown, lines, i + 1)
        }),
        found.with_lines(query, shown, lines, lines.len() as int) == found,
{
}

/// Behind the limit nothing more is put out.
pub proof fn law_limit(
    found: Found,
    query: Seq<char>,
    shown: Seq<char>,
    lines: Seq<Seq<char>>,
    i: int,
)
    requires
        found.hits >= 200,
    ensures
        found.with_lines(query, shown, lines, i) == found,
{
}

/// A file is searched line by line from its first, under its path below the root.
pub proof fn law_file_is_searched(
    found: Found,
    ctx: ContextModel,
    query: Seq<char>,
    path: Seq<char>,
    text: Seq<char>,
)
    ensures
        crate::paths::below_on(ctx.root, path, ctx.windows) matches Some(rel) ==> found.with_file(
            ctx,
            query,
            path,
            text,
        ) == found.with_lines(query, rel, lines_of(text), 0),
        crate::paths::below_on(ctx.root, path, ctx.windows) is None ==> found.with_file(
            ctx,
            query,
            path,
            text,
        ) == found.with_lines(query, path, lines_of(text), 0),
{
}

proof fn lemma_lines_out(
    found: Found,
    query: Seq<char>,
    shown: Seq<char>,
    lines: Seq<Seq<char>>,
    i: int,
)
    requires
        found.out.len() > 0 <==> found.hits > 0,
    ensures
        found.with_lines(query, shown, lines, i).out.len() > 0 <==> found.with_lines(
            query,
            shown,
            lines,
            i,
        ).hits > 0,
    decreases lines.len() - i,
{
    if 0 <= i < lines.len() && !found.is_full() {
        let line = crate::tools::search::hit_line(shown, (i + 1) as nat, lines[i]);
        reveal_strlit(":");
        assert(line.len() > 0);
        lemma_lines_out(
            Found { out: found.out + line, hits: found.hits + 1 },
            query,
            shown,
            lines,
            i + 1,
        );
        lemma_lines_out(found, query, shown, lines, i + 1);
    }
}

/// A search puts out something exactly if it finds something.
pub proof fn law_finds_are_put_out(
    found: Found,
    ctx: ContextModel,
    query: Seq<char>,
    s: Seq<Tree>,
)
    requires
        found.out.len() > 0 <==> found.hits > 0,
    ensures
        walked(found, ctx, query, s).out.len() > 0 <==> walked(found, ctx, query, s).hits > 0,
    decreases s,
{
    if s.len() > 0 && !found.is_full() {
        let first = s[0];
        let next = if is_skipped(first.entry()) {
            found
        } else {
            match first {
                Tree::Dir { entries, .. } => walked(found, ctx, query, entries),
                Tree::File { path, text, .. } => found.with_file(ctx, query, path, text),
                _ => found,
            }
        };
        match first {
            Tree::Dir { entries, .. } => law_finds_are_put_out(found, ctx, query, entries),
            Tree::File { path, text, .. } => {
                let shown = match crate::paths::below_on(ctx.root, path, ctx.windows) {
                    Some(rel) => rel,
                    None => path,
                };
                lemma_lines_out(found, query, shown, lines_of(text), 0);
            },
            _ => {},
        }
        law_finds_are_put_out(next, ctx, query, s.skip(1));
    }
}

/// The result of a search is the lines that were found, or that there are none.
pub proof fn law_search_output(w: WalkModel)
    ensures
        w.found.out.len() > 0 ==> w.output() == w.found.out,
        w.found.out.len() == 0 ==> w.output() == "(no matches)"@,
        Found::none().hits == 0,
        Found::none().out.len() == 0,
{
}

/// The entries are visited in order: a directory is read where it stands, a file is read
/// where it stands, and what is skipped or is neither is passed over. The search ends with
/// its work, or at the limit.
pub proof fn law_entries_are_visited(w: WalkModel, e: EntryModel, rest: Seq<EntryModel>)
    requires
        w.work == seq![e] + rest,
        w.found.hits < 200,
    ensures
        ({
            let next = WalkModel { work: rest, ..w };
            &&& is_skipped(e) ==> w.stepped() == next.stepped()
            &&& e.kind == EntryKind::Other ==> w.stepped() == next.stepped()
            &&& !is_skipped(e) && e.kind == EntryKind::Dir ==> w.stepped() == (
                next,
                WalkStepModel::ReadDir(e.path),
            )
            &&& !is_skipped(e) && e.kind == EntryKind::File ==> w.stepped() == (
                next,
                WalkStepModel::ReadFile(e.path),
            )
        }),
{
    assert(w.work[0] == e);
    assert(w.work.skip(1) =~= rest);
}

/// Without work, and at the limit, the search is over.
pub proof fn law_search_ends(w: WalkModel)
    requires
        w.work.len() == 0 || w.found.hits >= 200,
    ensures
        w.stepped() == (w, WalkStepModel::Done),
{
}

/// The entries of a directory come before what was left; a file adds what is found in it.
/// What cannot be read adds nothing.
pub proof fn law_what_was_read(
    w: WalkModel,
    entries: Seq<EntryModel>,
    path: Seq<char>,
    text: Seq<char>,
    ctx: ContextModel,
    query: Seq<char>,
)
    ensures
        w.listed(Some(entries)) == (WalkModel { work: entries + w.work, ..w }),
        w.listed(None) == w,
        w.read(path, Some(text)) == (WalkModel {
            found: w.found.with_file(w.ctx, w.query, path, text),
            ..w
        }),
        w.read(path, None) == w,
        WalkModel::started(ctx, query).work.len() == 0,
        WalkModel::started(ctx, query).found == Found::none(),
        WalkModel::started(ctx, query).query == query,
        WalkModel::started(ctx, query).ctx == ctx,
{
}

/// A tree is searched entry by entry: of a directory everything below it, of a file its
/// text, of what is skipped or cannot be read nothing.
pub proof fn law_tree_is_searched(
    found: Found,
    ctx: ContextModel,
    query: Seq<char>,
    first: Tree,
    rest: Seq<Tree>,
)
    requires
        found.hits < 200,
    ensures
        ({
            let all = walked(found, ctx, query, seq![first] + rest);
            &&& is_skipped(first.entry()) ==> all == walked(found, ctx, query, rest)
            &&& !is_skipped(first.entry()) ==> (first matches Tree::Dir { name, path, entries }
                ==> all == walked(walked(found, ctx, query, entries), ctx, query, rest))
            &&& !is_skipped(first.entry()) ==> (first matches Tree::File { name, path, text }
                ==> all == walked(found.with_file(ctx, query, path, text), ctx, query, rest))
            &&& first is Sealed || first is Unread || first is Other ==> all == walked(
                found,
                ctx,
                query,
                rest,
            )
        }),
        walked(found, ctx, query, Seq::empty()) == found,
{
    let s = seq![first] + rest;
    assert(s[0] == first);
    assert(s.skip(1) =~= rest);
}

} // verus!
