//! Where paths lead.
use vstd::prelude::*;

use crate::error::ErrorModel;
use crate::paths::{
    behind, below, is_absolute_path, is_dotted, is_idle, is_rooted_path, joined, joined_on, kept,
    parts_of, skip_idle, slashed_of,
};
use crate::text::{index_of_char, lemma_index_of_char, lemma_index_of_char_unique, split_of};
use crate::tools::safely_joined;

verus! {

/// A path below another stands behind it, with one separator between them; one that says
/// for itself where it starts stands for itself.
pub proof fn law_joined(base: Seq<char>, rel: Seq<char>)
    ensures
        rel.len() > 0 && rel[0] == '/' ==> joined(base, rel) == rel,
        !(rel.len() > 0 && rel[0] == '/') && base.len() > 0 && base.last() != '/' ==> joined(
            base,
            rel,
        ) == base + "/"@ + rel && joined(base.push('/'), rel) == base + "/"@ + rel,
        !(rel.len() > 0 && rel[0] == '/') ==> joined(Seq::empty(), rel) == rel,
        joined_on(base, rel, false) == joined(base, rel),
        base.len() > 0 && base.last() != '/' && base.last() != '\\' ==> joined_on(base, rel, true)
            == base + "\\"@ + rel,
        joined_on(base.push('\\'), rel, true) == base + "\\"@ + rel,
        joined_on(base.push('/'), rel, true) == base + "/"@ + rel,
{
    reveal_strlit("/");
    reveal_strlit("\\");
    assert(base.push('/') + rel =~= base + "/"@ + rel);
    assert(base.push('\\') + rel =~= base + "\\"@ + rel);
    assert(Seq::<char>::empty() + rel =~= rel);
}

/// A path says for itself where it starts exactly if it starts with a separator, or, on
/// Windows, with a drive.
pub proof fn law_rooted(p: Seq<char>)
    ensures
        is_rooted_path(p, false) <==> p.len() > 0 && p[0] == '/',
        is_rooted_path(p, true) <==> (p.len() > 0 && (p[0] == '/' || p[0] == '\\')) || (p.len() > 1
            && p[1] == ':' && (('a' <= p[0] && p[0] <= 'z') || ('A' <= p[0] && p[0] <= 'Z'))),
{
    if p.len() > 0 {
        assert(slashed_of(p, true)[0] == (if p[0] == '\\' {
            '/'
        } else {
            p[0]
        }));
    }
}

/// On Windows both separators are one; elsewhere a path is what it is.
pub proof fn law_separators(p: Seq<char>, i: int)
    requires
        0 <= i < p.len(),
    ensures
        slashed_of(p, false) == p,
        slashed_of(p, true).len() == p.len(),
        p[i] == '\\' ==> slashed_of(p, true)[i] == '/',
        p[i] != '\\' ==> slashed_of(p, true)[i] == p[i],
{
}

/// A path is taken below the project exactly if it does not say for itself where it starts
/// and none of its pieces leads upwards; else the error says which it was, of which path.
pub proof fn law_safe_join(root: Seq<char>, rel: Seq<char>, windows: bool)
    ensures
        ({
            let up = split_of(slashed_of(rel, windows), '/').contains(".."@);
            &&& is_rooted_path(rel, windows) ==> safely_joined(root, rel, windows) == Err::<
                Seq<char>,
                ErrorModel,
            >(ErrorModel::Tool("absolute paths not allowed: "@ + rel))
            &&& !is_rooted_path(rel, windows) && up ==> safely_joined(root, rel, windows) == Err::<
                Seq<char>,
                ErrorModel,
            >(ErrorModel::Tool("path escapes project root: "@ + rel))
            &&& !is_rooted_path(rel, windows) && !up ==> safely_joined(root, rel, windows) == Ok::<
                Seq<char>,
                ErrorModel,
            >(joined_on(root, rel, windows))
        }),
{
}

/// A path that climbs anywhere is refused: before a piece, between two, or behind one.
pub proof fn law_climbing_is_refused(root: Seq<char>, a: Seq<char>, b: Seq<char>)
    ensures
        safely_joined(root, ".."@, false) is Err,
        safely_joined(root, "../"@ + b, false) is Err,
        safely_joined(root, a + "/.."@, false) is Err,
        safely_joined(root, a + "/../"@ + b, false) is Err,
{
    reveal_strlit("..");
    reveal_strlit("../");
    reveal_strlit("/..");
    reveal_strlit("/../");
    let up = ".."@;
    assert(up =~= seq!['.', '.']);
    lemma_index_of_char_unique(up, '/', 2);
    assert(split_of(up, '/')[0] == up);
    assert("../"@ + b =~= up + seq!['/'] + b);
    lemma_split_join(up, b);
    assert(a + "/.."@ =~= a + seq!['/'] + up);
    lemma_split_join(a, up);
    assert(a + "/../"@ + b =~= a + seq!['/'] + (up + seq!['/'] + b));
    lemma_split_join(a, up + seq!['/'] + b);
    let first = split_of(up, '/') + split_of(b, '/');
    assert(first[0] == up);
    let second = split_of(a, '/') + split_of(up, '/');
    assert(second[split_of(a, '/').len() as int] == up);
    let third = split_of(a, '/') + first;
    assert(third[split_of(a, '/').len() as int] == up);
}

proof fn lemma_split_join(a: Seq<char>, b: Seq<char>)
    ensures
        split_of(a + seq!['/'] + b, '/') == split_of(a, '/') + split_of(b, '/'),
    decreases a.len(),
{
    let s = a + seq!['/'] + b;
    lemma_index_of_char(a, '/');
    let i = index_of_char(a, '/');
    assert forall|j: int| 0 <= j < i implies s[j] != '/' by {
        assert(s[j] == a[j]);
    }
    assert(s[i] == '/') by {
        if i < a.len() {
            assert(s[i] == a[i]);
        }
    }
    lemma_index_of_char_unique(s, '/', i);
    if i >= a.len() {
        assert(s.take(i) =~= a);
        assert(s.skip(i + 1) =~= b);
    } else {
        assert(s.take(i) =~= a.take(i));
        assert(s.skip(i + 1) =~= a.skip(i + 1) + seq!['/'] + b);
        lemma_split_join(a.skip(i + 1), b);
        assert(seq![a.take(i)] + (split_of(a.skip(i + 1), '/') + split_of(b, '/')) =~= (seq![
            a.take(i),
        ] + split_of(a.skip(i + 1), '/')) + split_of(b, '/'));
    }
}

proof fn lemma_kept_front(first: Seq<char>, rest: Seq<Seq<char>>)
    ensures
        is_idle(first) ==> kept(seq![first] + rest) == kept(rest),
        !is_idle(first) ==> kept(seq![first] + rest) == seq![first] + kept(rest),
    decreases rest.len(),
{
    let all = seq![first] + rest;
    if rest.len() == 0 {
        assert(all.drop_last() =~= Seq::empty());
        assert(kept(Seq::empty()) == Seq::<Seq<char>>::empty());
        assert(all.last() == first);
        assert(kept(rest) =~= Seq::empty());
        if !is_idle(first) {
            assert(kept(all) =~= seq![first] + kept(rest));
        }
    } else {
        lemma_kept_front(first, rest.drop_last());
        assert(all.drop_last() =~= seq![first] + rest.drop_last());
        assert(all.last() == rest.last());
        if !is_idle(first) {
            assert(kept(all) =~= seq![first] + kept(rest));
        }
    }
}

/// The parts of a path from its first piece on.
proof fn lemma_parts_front(p: Seq<char>)
    ensures
        ({
            let m = index_of_char(p, '/');
            let rest = if m < p.len() {
                p.skip(m + 1)
            } else {
                Seq::empty()
            };
            &&& is_idle(p.take(m)) ==> parts_of(p) == parts_of(rest)
            &&& !is_idle(p.take(m)) ==> parts_of(p) == seq![p.take(m)] + parts_of(rest)
        }),
{
    lemma_index_of_char(p, '/');
    let m = index_of_char(p, '/');
    if m < p.len() {
        lemma_kept_front(p.take(m), split_of(p.skip(m + 1), '/'));
    } else {
        assert(p.take(m) =~= p);
        let none = Seq::<Seq<char>>::empty();
        lemma_kept_front(p, none);
        assert(seq![p] + none =~= seq![p]);
        assert(kept(none) == none);
        lemma_empty_parts();
    }
}

proof fn lemma_empty_parts()
    ensures
        parts_of(Seq::empty()) == Seq::<Seq<char>>::empty(),
{
    let e = Seq::<char>::empty();
    let none = Seq::<Seq<char>>::empty();
    lemma_kept_front(e, none);
    assert(seq![e] + none =~= seq![e]);
    assert(kept(none) == none);
    assert(split_of(e, '/') =~= seq![e]);
}

proof fn lemma_skipped(p: Seq<char>)
    ensures
        parts_of(skip_idle(p)) == parts_of(p),
        skip_idle(p).len() > 0 ==> !is_idle(
            skip_idle(p).take(index_of_char(skip_idle(p), '/')),
        ),
    decreases p.len(),
{
    lemma_index_of_char(p, '/');
    let m = index_of_char(p, '/');
    if p.len() > 0 && p[0] == '/' {
        lemma_index_of_char_unique(p, '/', 0);
        lemma_parts_front(p);
        assert(p.take(0) =~= Seq::empty());
        lemma_skipped(p.skip(1));
    } else if p.len() == 1 && p[0] == '.' {
        lemma_index_of_char_unique(p, '/', 1);
        lemma_parts_front(p);
        assert(p.skip(1) =~= Seq::empty());
        assert(p.take(1) =~= p);
    } else if p.len() > 1 && p[0] == '.' && p[1] == '/' {
        lemma_index_of_char_unique(p, '/', 1);
        lemma_parts_front(p);
        assert(p.take(1)[0] == '.');
        lemma_skipped(p.skip(2));
    } else if p.len() > 0 {
        assert(m > 0);
        assert(p.take(m)[0] == p[0]);
        if m == 1 && p[0] == '.' {
            assert(p.len() > 1 ==> p[1] == '/');
        }
    }
}

proof fn lemma_behind_skips(root: Seq<char>, path: Seq<char>)
    ensures
        match behind(root, path) {
            Some(rest) => parts_of(path) == parts_of(root) + parts_of(rest),
            None => !starts_with_parts(parts_of(path), parts_of(root)),
        },
    decreases root.len(),
{
    let r = skip_idle(root);
    let p = skip_idle(path);
    lemma_skipped(root);
    lemma_skipped(path);
    lemma_skip_len(root);
    if r.len() == 0 {
        lemma_empty_parts();
        assert(r =~= Seq::empty());
        assert(parts_of(root) + parts_of(p) =~= parts_of(p));
    } else {
        lemma_index_of_char(r, '/');
        lemma_index_of_char(p, '/');
        let n = index_of_char(r, '/');
        let m = index_of_char(p, '/');
        lemma_parts_front(r);
        lemma_parts_behind(r, n);
        assert(n > 0) by {
            if n == 0 {
                assert(r.take(0).len() == 0);
            }
        }
        if r.take(n) == p.take(m) {
            assert(p.len() > 0);
            lemma_parts_front(p);
            lemma_parts_behind(p, m);
            lemma_behind_skips(r.skip(n), p.skip(m));
            let head = seq![r.take(n)];
            match behind(root, path) {
                Some(rest) => {
                    assert(head + (parts_of(r.skip(n)) + parts_of(rest)) =~= (head + parts_of(
                        r.skip(n),
                    )) + parts_of(rest));
                },
                None => {
                    let a = parts_of(p.skip(m));
                    let b = parts_of(r.skip(n));
                    if starts_with_parts(head + a, head + b) {
                        assert(a.take(b.len() as int) =~= (head + a).take(
                            b.len() as int + 1,
                        ).skip(1));
                        assert((head + b).skip(1) =~= b);
                    }
                },
            }
        } else {
            let a = parts_of(path);
            let b = parts_of(root);
            assert(b[0] == r.take(n));
            if p.len() > 0 {
                lemma_parts_front(p);
                assert(a[0] == p.take(m));
            } else {
                assert(p =~= Seq::empty());
                lemma_empty_parts();
            }
            if starts_with_parts(a, b) {
                assert(a.take(b.len() as int)[0] == a[0]);
            }
        }
    }
}

proof fn lemma_skip_len(p: Seq<char>)
    ensures
        skip_idle(p).len() <= p.len(),
    decreases p.len(),
{
    if p.len() > 0 && p[0] == '/' {
        lemma_skip_len(p.skip(1));
    } else if p.len() > 1 && p[0] == '.' && p[1] == '/' {
        lemma_skip_len(p.skip(2));
    }
}

/// A path from its first separator on has the parts of the path behind that separator.
proof fn lemma_parts_behind(p: Seq<char>, m: int)
    requires
        m == index_of_char(p, '/'),
    ensures
        m < p.len() ==> parts_of(p.skip(m)) == parts_of(p.skip(m + 1)),
        m >= p.len() ==> parts_of(p.skip(m)) == parts_of(Seq::empty()),
{
    lemma_index_of_char(p, '/');
    let q = p.skip(m);
    if m < p.len() {
        assert(q[0] == '/');
        lemma_index_of_char_unique(q, '/', 0);
        lemma_parts_front(q);
        assert(q.take(0) =~= Seq::empty());
        assert(q.skip(1) =~= p.skip(m + 1));
    } else {
        assert(q =~= Seq::empty());
    }
}

/// The parts `a` start with the parts `b`.
pub open spec fn starts_with_parts(a: Seq<Seq<char>>, b: Seq<Seq<char>>) -> bool {
    a.len() >= b.len() && a.take(b.len() as int) == b
}

/// A path that is seen from a directory has the parts of that directory and then those of
/// what is seen. Where both start alike, it is seen exactly if it starts with the parts of
/// the directory: `/project` is not seen from `/proj`.
pub proof fn law_seen_from(root: Seq<char>, path: Seq<char>)
    ensures
        below(root, path) matches Some(rest) ==> parts_of(path) == parts_of(root) + parts_of(rest),
        is_absolute_path(root) == is_absolute_path(path) && is_dotted(root) == is_dotted(path)
            && starts_with_parts(parts_of(path), parts_of(root)) ==> below(root, path) is Some,
        is_absolute_path(root) && !is_absolute_path(path) ==> below(root, path) is None,
{
    lemma_behind_skips(root, path);
    if root.len() == 0 {
        lemma_empty_parts();
        assert(root =~= Seq::empty());
        assert(parts_of(root) + parts_of(path) =~= parts_of(path));
    }
}

/// A path is told from its own directory exactly if it is a dot, or starts with one and a
/// separator.
pub proof fn law_dotted(p: Seq<char>)
    ensures
        is_dotted(p) <==> p == seq!['.'] || (p.len() > 1 && p[0] == '.' && p[1] == '/'),
{
    if p.len() == 1 && p[0] == '.' {
        assert(p =~= seq!['.']);
    }
}

} // verus!
