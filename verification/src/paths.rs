//! Paths as text, with `/` between their parts.
//!
//! Where files are read and written below the project root, the platform counts: on
//! Windows a backslash separates the parts of a path as well, and a path may start with
//! a drive.
use vstd::prelude::*;

use crate::text::{
    cat2, cat3, chars_of, index_of_char, lemma_index_of_char, lemma_index_of_char_unique, opt_view,
    position_of, push_char, split_of, text_of,
};

verus! {

/// A path that starts at the file system's root.
pub open spec fn is_absolute_path(p: Seq<char>) -> bool {
    p.len() > 0 && p[0] == '/'
}

/// `rel` below `base`: an absolute `rel` stands for itself, and a separator is
/// added where `base` does not end with one.
pub open spec fn joined(base: Seq<char>, rel: Seq<char>) -> Seq<char> {
    if is_absolute_path(rel) {
        rel
    } else if base.len() == 0 || base.last() == '/' {
        base + rel
    } else {
        base + "/"@ + rel
    }
}

pub fn is_absolute(p: &str) -> (r: bool)
    ensures
        r == is_absolute_path(p@),
{
    let v = chars_of(p);
    v.len() > 0 && v[0] == '/'
}

/// `rel` below `base`.
pub fn join(base: &str, rel: &str) -> (r: String)
    ensures
        r@ == joined(base@, rel@),
{
    if is_absolute(rel) {
        return rel.to_owned();
    }
    let v = chars_of(base);
    if v.len() == 0 || v[v.len() - 1] == '/' {
        cat2(base, rel)
    } else {
        cat3(base, "/", rel)
    }
}

/// A piece of a path that names nothing: the empty one, and `.`.
pub open spec fn is_idle(piece: Seq<char>) -> bool {
    piece.len() == 0 || (piece.len() == 1 && piece[0] == '.')
}

/// The pieces that name something.
pub open spec fn kept(pieces: Seq<Seq<char>>) -> Seq<Seq<char>>
    decreases pieces.len(),
{
    if pieces.len() == 0 {
        Seq::empty()
    } else if is_idle(pieces.last()) {
        kept(pieces.drop_last())
    } else {
        kept(pieces.drop_last()).push(pieces.last())
    }
}

/// The parts of a path, from the outermost directory inwards.
pub open spec fn parts_of(p: Seq<char>) -> Seq<Seq<char>> {
    kept(split_of(p, '/'))
}

proof fn lemma_kept_add(a: Seq<Seq<char>>, b: Seq<Seq<char>>)
    ensures
        kept(a + b) == kept(a) + kept(b),
    decreases b.len(),
{
    if b.len() == 0 {
        assert(a + b =~= a);
        assert(kept(a) + kept(b) =~= kept(a));
    } else {
        assert((a + b).drop_last() =~= a + b.drop_last());
        lemma_kept_add(a, b.drop_last());
        assert(kept(a + b) =~= kept(a) + kept(b));
    }
}

proof fn lemma_split_add(a: Seq<char>, b: Seq<char>, c: char)
    ensures
        split_of(a + seq![c] + b, c) == split_of(a, c) + split_of(b, c),
    decreases a.len(),
{
    let s = a + seq![c] + b;
    lemma_index_of_char(a, c);
    let i = index_of_char(a, c);
    assert forall|j: int| 0 <= j < i implies s[j] != c by {
        assert(s[j] == a[j]);
    }
    if i < a.len() {
        assert(s[i] == a[i]);
        lemma_index_of_char_unique(s, c, i);
        assert(s.take(i) =~= a.take(i));
        assert(s.skip(i + 1) =~= a.skip(i + 1) + seq![c] + b);
        lemma_split_add(a.skip(i + 1), b, c);
        assert(seq![a.take(i)] + (split_of(a.skip(i + 1), c) + split_of(b, c)) =~= (seq![a.take(i)]
            + split_of(a.skip(i + 1), c)) + split_of(b, c));
    } else {
        assert(s[i] == c);
        lemma_index_of_char_unique(s, c, i);
        assert(s.take(i) =~= a);
        assert(s.skip(i + 1) =~= b);
    }
}

/// The parts of a joined path are those of its base and then those of the path
/// below it.
pub proof fn law_parts_of_joined(base: Seq<char>, rel: Seq<char>)
    requires
        !is_absolute_path(rel),
    ensures
        parts_of(joined(base, rel)) == parts_of(base) + parts_of(rel),
{
    reveal_strlit("/");
    assert("/"@ =~= seq!['/']);
    if base.len() == 0 {
        assert(base + rel =~= rel);
        lemma_index_of_char(base, '/');
        let none = split_of(base, '/');
        assert(none =~= seq![base]);
        assert(none.drop_last() =~= Seq::empty());
        assert(kept(none.drop_last()) =~= Seq::empty());
        assert(is_idle(none.last()));
        assert(kept(none) =~= Seq::empty());
        assert(parts_of(base) + parts_of(rel) =~= parts_of(rel));
    } else if base.last() == '/' {
        let front = base.drop_last();
        assert(front + seq!['/'] =~= base);
        assert(base + rel =~= front + seq!['/'] + rel);
        lemma_split_add(front, rel, '/');
        lemma_split_add(front, Seq::empty(), '/');
        assert(front + seq!['/'] + Seq::<char>::empty() =~= base);
        lemma_kept_add(split_of(front, '/'), split_of(rel, '/'));
        lemma_kept_add(split_of(front, '/'), split_of(Seq::empty(), '/'));
        lemma_index_of_char(Seq::empty(), '/');
        let none = split_of(Seq::empty(), '/');
        assert(none =~= seq![Seq::empty()]);
        assert(none.drop_last() =~= Seq::empty());
        assert(kept(none.drop_last()) =~= Seq::empty());
        assert(is_idle(none.last()));
        assert(kept(none) =~= Seq::empty());
        assert(parts_of(base) =~= kept(split_of(front, '/')));
    } else {
        lemma_split_add(base, rel, '/');
        lemma_kept_add(split_of(base, '/'), split_of(rel, '/'));
    }
}

/// `p` with `/` for every separator of the platform.
pub open spec fn slashed_of(p: Seq<char>, windows: bool) -> Seq<char> {
    if windows {
        Seq::new(
            p.len(),
            |i: int|
                if p[i] == '\\' {
                    '/'
                } else {
                    p[i]
                },
        )
    } else {
        p
    }
}

/// `p` with `/` for every separator of the platform.
pub fn slashed(p: &str, windows: bool) -> (r: String)
    ensures
        r@ == slashed_of(p@, windows),
{
    if !windows {
        return p.to_owned();
    }
    let v = chars_of(p);
    let mut out = String::new();
    let mut i: usize = 0;
    while i < v.len()
        invariant
            v@ == p@,
            windows,
            i <= v@.len(),
            out@ == slashed_of(p@, windows).take(i as int),
        decreases v@.len() - i,
    {
        push_char(
            &mut out,
            if v[i] == '\\' {
                '/'
            } else {
                v[i]
            },
        );
        assert(out@ =~= slashed_of(p@, windows).take(i + 1));
        i += 1;
    }
    assert(out@ =~= slashed_of(p@, windows));
    out
}

/// A path that starts with a drive, such as `C:`.
pub open spec fn has_drive(p: Seq<char>) -> bool {
    p.len() > 1 && p[1] == ':' && ('a' <= p[0] <= 'z' || 'A' <= p[0] <= 'Z')
}

/// A path that says for itself where it starts: at the root of a file system, or at a
/// drive.
pub open spec fn is_rooted_path(p: Seq<char>, windows: bool) -> bool {
    is_absolute_path(slashed_of(p, windows)) || (windows && has_drive(p))
}

pub fn is_rooted(p: &str, windows: bool) -> (r: bool)
    ensures
        r == is_rooted_path(p@, windows),
{
    let v = chars_of(p);
    if v.len() > 0 && (v[0] == '/' || (windows && v[0] == '\\')) {
        return true;
    }
    windows && v.len() > 1 && v[1] == ':' && (('a' <= v[0] && v[0] <= 'z') || ('A' <= v[0]
        && v[0] <= 'Z'))
}

/// `rel` below `base`, with the platform's separator between them where `base` does not
/// end with one.
pub open spec fn joined_on(base: Seq<char>, rel: Seq<char>, windows: bool) -> Seq<char> {
    if !windows {
        joined(base, rel)
    } else if base.len() == 0 || base.last() == '/' || base.last() == '\\' {
        base + rel
    } else {
        base + "\\"@ + rel
    }
}

/// `rel` below `base`.
pub fn join_on(base: &str, rel: &str, windows: bool) -> (r: String)
    ensures
        r@ == joined_on(base@, rel@, windows),
{
    if !windows {
        return join(base, rel);
    }
    let v = chars_of(base);
    if v.len() == 0 || v[v.len() - 1] == '/' || v[v.len() - 1] == '\\' {
        cat2(base, rel)
    } else {
        cat3(base, "\\", rel)
    }
}

/// The parts of a path on a platform, from the outermost directory inwards.
pub open spec fn parts_on(p: Seq<char>, windows: bool) -> Seq<Seq<char>> {
    parts_of(slashed_of(p, windows))
}

/// The parts of a joined path are those of its base and then those of the path below it,
/// on every platform.
pub proof fn law_parts_on_joined(base: Seq<char>, rel: Seq<char>, windows: bool)
    requires
        !is_rooted_path(rel, windows),
    ensures
        parts_on(joined_on(base, rel, windows), windows) == parts_on(base, windows) + parts_on(
            rel,
            windows,
        ),
{
    law_parts_of_joined(slashed_of(base, windows), slashed_of(rel, windows));
    if windows {
        reveal_strlit("/");
        reveal_strlit("\\");
        assert(slashed_of(joined_on(base, rel, windows), windows) =~= joined(
            slashed_of(base, windows),
            slashed_of(rel, windows),
        ));
    }
}

/// `p` without the separators and `.` parts it starts with.
pub open spec fn skip_idle(p: Seq<char>) -> Seq<char>
    decreases p.len(),
{
    if p.len() > 0 && p[0] == '/' {
        skip_idle(p.skip(1))
    } else if p.len() == 1 && p[0] == '.' {
        p.skip(1)
    } else if p.len() > 1 && p[0] == '.' && p[1] == '/' {
        skip_idle(p.skip(2))
    } else {
        p
    }
}

/// What follows in `path` behind the parts of `root`, where it starts with them.
pub open spec fn behind(root: Seq<char>, path: Seq<char>) -> Option<Seq<char>>
    decreases root.len(),
    via behind_decreases
{
    let r = skip_idle(root);
    let p = skip_idle(path);
    if r.len() == 0 {
        Some(p)
    } else {
        let n = index_of_char(r, '/');
        let m = index_of_char(p, '/');
        if r.take(n) == p.take(m) {
            behind(r.skip(n), p.skip(m))
        } else {
            None
        }
    }
}

#[via_fn]
proof fn behind_decreases(root: Seq<char>, path: Seq<char>) {
    lemma_skip_idle(root);
    lemma_index_of_char(skip_idle(root), '/');
}

proof fn lemma_skip_idle(p: Seq<char>)
    ensures
        skip_idle(p).len() <= p.len(),
        skip_idle(p) == p.skip(p.len() - skip_idle(p).len()),
        skip_idle(p).len() > 0 ==> skip_idle(p)[0] != '/',
    decreases p.len(),
{
    if p.len() > 0 && p[0] == '/' {
        lemma_skip_idle(p.skip(1));
        assert(skip_idle(p) =~= p.skip(p.len() - skip_idle(p).len()));
    } else if p.len() > 1 && p[0] == '.' && p[1] == '/' {
        lemma_skip_idle(p.skip(2));
        assert(skip_idle(p) =~= p.skip(p.len() - skip_idle(p).len()));
    } else {
        assert(skip_idle(p) =~= p.skip(p.len() - skip_idle(p).len()));
    }
}

/// A relative path that says so with a leading `.`.
pub open spec fn is_dotted(p: Seq<char>) -> bool {
    p.len() > 0 && p[0] == '.' && (p.len() == 1 || p[1] == '/')
}

/// `path` as seen from `root`, where it lies below it: part by part, so that
/// `/project` does not lie below `/proj`.
pub open spec fn below(root: Seq<char>, path: Seq<char>) -> Option<Seq<char>> {
    if root.len() == 0 {
        Some(path)
    } else if is_absolute_path(root) != is_absolute_path(path) || is_dotted(root) != is_dotted(
        path,
    ) {
        None
    } else {
        behind(root, path)
    }
}

fn idle_end(v: &Vec<char>, from: usize) -> (r: usize)
    requires
        from <= v@.len(),
    ensures
        from <= r <= v@.len(),
        v@.skip(r as int) == skip_idle(v@.skip(from as int)),
{
    let mut i: usize = from;
    loop
        invariant
            from <= i <= v@.len(),
            skip_idle(v@.skip(i as int)) == skip_idle(v@.skip(from as int)),
        decreases v@.len() - i,
    {
        let ghost rest = v@.skip(i as int);
        assert(v.len() == v@.len());
        if i < v.len() && v[i] == '/' {
            assert(rest.skip(1) =~= v@.skip(i + 1));
            i += 1;
        } else if v.len() - i == 1 && v[i] == '.' {
            assert(rest.skip(1) =~= v@.skip(i + 1));
            return i + 1;
        } else if v.len() - i > 1 && v[i] == '.' && v[i + 1] == '/' {
            assert(rest.skip(2) =~= v@.skip(i + 2));
            i += 2;
        } else {
            return i;
        }
    }
}

/// `path` as seen from `root`, where it lies below it.
pub fn relative_to(root: &str, path: &str) -> (r: Option<String>)
    ensures
        opt_view(r) == below(root@, path@),
{
    let a = chars_of(root);
    let b = chars_of(path);
    if a.len() == 0 {
        return Some(path.to_owned());
    }
    let a_dotted = a[0] == '.' && (a.len() == 1 || a[1] == '/');
    let b_dotted = b.len() > 0 && b[0] == '.' && (b.len() == 1 || b[1] == '/');
    if is_absolute(root) != is_absolute(path) || a_dotted != b_dotted {
        return None;
    }
    let mut i: usize = 0;
    let mut j: usize = 0;
    assert(a@.skip(0) =~= a@);
    assert(b@.skip(0) =~= b@);
    loop
        invariant
            a@ == root@,
            b@ == path@,
            a@.len() > 0,
            is_absolute_path(root@) == is_absolute_path(path@),
            is_dotted(root@) == is_dotted(path@),
            i <= a@.len(),
            j <= b@.len(),
            behind(a@, b@) == behind(a@.skip(i as int), b@.skip(j as int)),
        decreases a@.len() - i,
    {
        let i1 = idle_end(&a, i);
        let j1 = idle_end(&b, j);
        let ghost r = a@.skip(i1 as int);
        let ghost p = b@.skip(j1 as int);
        if i1 == a.len() {
            assert(r.len() == 0);
            assert(b@.subrange(j1 as int, b@.len() as int) =~= p);
            return Some(text_of(&b, j1, b.len()));
        }
        let i2 = position_of(&a, '/', i1);
        let j2 = position_of(&b, '/', j1);
        let ghost n = i2 - i1;
        let ghost m = j2 - j1;
        proof {
            lemma_skip_idle(a@.skip(i as int));
            lemma_index_of_char(r, '/');
            assert(r[0] == a@[i1 as int]);
            assert(a@.subrange(i1 as int, i2 as int) =~= r.take(n));
            assert(b@.subrange(j1 as int, j2 as int) =~= p.take(m));
            assert(r.skip(n) =~= a@.skip(i2 as int));
            assert(p.skip(m) =~= b@.skip(j2 as int));
        }
        let x = text_of(&a, i1, i2);
        let y = text_of(&b, j1, j2);
        if !crate::text::same(x.as_str(), y.as_str()) {
            return None;
        }
        i = i2;
        j = j2;
    }
}

/// `path` as seen from `root` on a platform, where it lies below it.
pub open spec fn below_on(root: Seq<char>, path: Seq<char>, windows: bool) -> Option<Seq<char>> {
    match below(slashed_of(root, windows), slashed_of(path, windows)) {
        Some(rest) => Some(path.skip(path.len() - rest.len())),
        None => None,
    }
}

/// `path` as seen from `root`, where it lies below it.
pub fn relative_on(root: &str, path: &str, windows: bool) -> (r: Option<String>)
    ensures
        opt_view(r) == below_on(root@, path@, windows),
{
    let from = slashed(root, windows);
    let to = slashed(path, windows);
    proof {
        lemma_behind_suffix(from@, to@);
    }
    match relative_to(from.as_str(), to.as_str()) {
        Some(rest) => {
            let v = chars_of(path);
            let n = chars_of(rest.as_str()).len();
            assert(v@.subrange(v@.len() - n, v@.len() as int) =~= v@.skip(v@.len() - n));
            Some(text_of(&v, v.len() - n, v.len()))
        },
        None => None,
    }
}

/// What lies behind is the end of the path.
proof fn lemma_behind_suffix(root: Seq<char>, path: Seq<char>)
    ensures
        behind(root, path) matches Some(rest) ==> rest.len() <= path.len() && rest == path.skip(
            path.len() - rest.len(),
        ),
    decreases root.len(),
{
    lemma_skip_idle(root);
    lemma_skip_idle(path);
    let r = skip_idle(root);
    let p = skip_idle(path);
    if r.len() > 0 {
        lemma_index_of_char(r, '/');
        lemma_index_of_char(p, '/');
        let n = index_of_char(r, '/');
        let m = index_of_char(p, '/');
        if r.take(n) == p.take(m) {
            lemma_behind_suffix(r.skip(n), p.skip(m));
            if let Some(rest) = behind(root, path) {
                assert(rest =~= path.skip(path.len() - rest.len()));
            }
        }
    }
}

proof fn lemma_skip_idle_add(root: Seq<char>, tail: Seq<char>)
    requires
        tail.len() > 0,
        tail[0] == '/' || (root.len() > 0 && root.last() == '/'),
    ensures
        skip_idle(root).len() > 0 ==> skip_idle(root + tail) == skip_idle(root) + tail,
        skip_idle(root).len() == 0 ==> skip_idle(root + tail) == skip_idle(tail),
    decreases root.len(),
{
    let p = root + tail;
    if root.len() == 0 {
        assert(p =~= tail);
    } else if root[0] == '/' {
        assert(p[0] == '/');
        assert(p.skip(1) =~= root.skip(1) + tail);
        if root.len() == 1 {
            assert(root.skip(1) + tail =~= tail);
            assert(skip_idle(root.skip(1)) == root.skip(1));
        } else {
            assert(root.skip(1).last() == root.last());
            lemma_skip_idle_add(root.skip(1), tail);
        }
    } else if root.len() == 1 && root[0] == '.' {
        assert(p[0] == '.' && p[1] == '/');
        assert(p.skip(2) =~= tail.skip(1));
    } else if root[0] == '.' && root[1] == '/' {
        assert(p[0] == '.' && p[1] == '/');
        assert(p.skip(2) =~= root.skip(2) + tail);
        if root.len() == 2 {
            assert(root.skip(2) + tail =~= tail);
            assert(skip_idle(root.skip(2)) == root.skip(2));
        } else {
            assert(root.skip(2).last() == root.last());
            lemma_skip_idle_add(root.skip(2), tail);
        }
    } else {
        assert(p[0] == root[0]);
        if root.len() > 1 {
            assert(p[1] == root[1]);
        }
        assert(skip_idle(root) == root);
        assert(skip_idle(p) == p);
    }
}

proof fn lemma_behind_add(root: Seq<char>, tail: Seq<char>)
    requires
        tail.len() > 0,
        tail[0] == '/' || (root.len() > 0 && root.last() == '/'),
    ensures
        behind(root, root + tail) == Some(skip_idle(tail)),
    decreases root.len(),
{
    lemma_skip_idle_add(root, tail);
    lemma_skip_idle(root);
    let r = skip_idle(root);
    let p = skip_idle(root + tail);
    if r.len() > 0 {
        lemma_index_of_char(r, '/');
        let n = index_of_char(r, '/');
        assert(r.last() == root.last());
        assert forall|j: int| 0 <= j < n implies p[j] != '/' by {
            assert(p[j] == r[j]);
        }
        if n < r.len() {
            assert(p[n] == r[n]);
        } else {
            assert(r[r.len() - 1] != '/');
            assert(p[n] == tail[0]);
        }
        lemma_index_of_char_unique(p, '/', n);
        assert(p.take(n) =~= r.take(n));
        assert(p.skip(n) =~= r.skip(n) + tail);
        if n < r.len() {
            assert(r.skip(n).last() == r.last());
        }
        lemma_behind_add(r.skip(n), tail);
    }
}

/// A path joined to a root is seen from the root as it was written, on every platform.
pub proof fn law_below_joined(root: Seq<char>, rel: Seq<char>, windows: bool)
    requires
        rel.len() > 0,
        skip_idle(slashed_of(rel, windows)) == slashed_of(rel, windows),
    ensures
        below_on(root, joined_on(root, rel, windows), windows) == Some(rel),
{
    let path = joined_on(root, rel, windows);
    let plain = slashed_of(rel, windows);
    lemma_skip_idle(plain);
    lemma_below_joined(slashed_of(root, windows), plain);
    reveal_strlit("/");
    reveal_strlit("\\");
    assert(slashed_of(path, windows) =~= joined(slashed_of(root, windows), plain));
    assert(path.skip(path.len() - rel.len()) =~= rel);
}

proof fn lemma_below_joined(root: Seq<char>, rel: Seq<char>)
    requires
        rel.len() > 0,
        skip_idle(rel) == rel,
    ensures
        below(root, joined(root, rel)) == Some(rel),
{
    reveal_strlit("/");
    assert("/"@ =~= seq!['/']);
    lemma_skip_idle(rel);
    if root.len() == 0 {
        assert(joined(root, rel) =~= rel);
    } else if root.last() == '/' {
        lemma_behind_add(root, rel);
    } else {
        let tail = "/"@ + rel;
        assert(tail.skip(1) =~= rel);
        assert(joined(root, rel) =~= root + tail);
        lemma_behind_add(root, tail);
        assert(joined(root, rel)[root.len() as int] == '/');
    }
}

} // verus!
