//! Text primitives.
//!
//! Contracts speak of a string as the sequence of its characters. Each
//! function here states its result over that sequence, so the rest of the crate
//! can reason about prefixes, lines, words and numbers without touching bytes.
use vstd::prelude::*;

verus! {

/// The models of the elements of a sequence, in order.
pub open spec fn views<T: View>(s: Seq<T>) -> Seq<T::V> {
    Seq::new(s.len(), |i: int| s[i]@)
}

/// The model of an optional value.
pub open spec fn opt_view<T: View>(o: Option<T>) -> Option<T::V> {
    match o {
        Some(v) => Some(v@),
        None => None,
    }
}

/// The models of pairs of texts.
pub open spec fn pair_views(s: Seq<(String, String)>) -> Seq<(Seq<char>, Seq<char>)> {
    Seq::new(s.len(), |i: int| (s[i].0@, s[i].1@))
}

pub broadcast proof fn lemma_views_push<T: View>(s: Seq<T>, x: T)
    ensures
        #[trigger] views(s.push(x)) == views(s).push(x@),
{
    assert(views(s.push(x)) =~= views(s).push(x@));
}

pub broadcast proof fn lemma_views_add<T: View>(a: Seq<T>, b: Seq<T>)
    ensures
        #[trigger] views(a + b) == views(a) + views(b),
{
    assert(views(a + b) =~= views(a) + views(b));
}

/// Characters with the Unicode property `White_Space`.
pub open spec fn is_space(c: char) -> bool {
    let n = c as u32;
    ||| 0x9 <= n <= 0xd
    ||| n == 0x20
    ||| n == 0x85
    ||| n == 0xa0
    ||| n == 0x1680
    ||| 0x2000 <= n <= 0x200a
    ||| n == 0x2028
    ||| n == 0x2029
    ||| n == 0x202f
    ||| n == 0x205f
    ||| n == 0x3000
}

/// `s` without the white space it starts with.
pub open spec fn trim_start_of(s: Seq<char>) -> Seq<char>
    decreases s.len(),
{
    if s.len() > 0 && is_space(s[0]) {
        trim_start_of(s.skip(1))
    } else {
        s
    }
}

/// `s` without the white space it ends with.
pub open spec fn trim_end_of(s: Seq<char>) -> Seq<char>
    decreases s.len(),
{
    if s.len() > 0 && is_space(s.last()) {
        trim_end_of(s.drop_last())
    } else {
        s
    }
}

/// `s` without the white space around it.
pub open spec fn trim_of(s: Seq<char>) -> Seq<char> {
    trim_end_of(trim_start_of(s))
}

/// `s` without the run of `c` it starts with.
pub open spec fn trim_start_char_of(s: Seq<char>, c: char) -> Seq<char>
    decreases s.len(),
{
    if s.len() > 0 && s[0] == c {
        trim_start_char_of(s.skip(1), c)
    } else {
        s
    }
}

/// `s` without the run of `c` it ends with.
pub open spec fn trim_end_char_of(s: Seq<char>, c: char) -> Seq<char>
    decreases s.len(),
{
    if s.len() > 0 && s.last() == c {
        trim_end_char_of(s.drop_last(), c)
    } else {
        s
    }
}

/// `s` without the carriage returns and line feeds it ends with.
pub open spec fn trim_newlines_of(s: Seq<char>) -> Seq<char>
    decreases s.len(),
{
    if s.len() > 0 && (s.last() == '\r' || s.last() == '\n') {
        trim_newlines_of(s.drop_last())
    } else {
        s
    }
}

/// `pat` stands in `s` at position `i`.
pub open spec fn occurs_at(s: Seq<char>, pat: Seq<char>, i: int) -> bool {
    &&& 0 <= i
    &&& i + pat.len() <= s.len()
    &&& s.subrange(i, i + pat.len()) == pat
}

/// `pat` stands somewhere in `s`.
pub open spec fn occurs_in(s: Seq<char>, pat: Seq<char>) -> bool {
    exists|i: int| occurs_at(s, pat, i)
}

pub open spec fn has_prefix(s: Seq<char>, p: Seq<char>) -> bool {
    occurs_at(s, p, 0)
}

/// What follows the prefix `p` of `s`, where `s` starts with `p`.
pub open spec fn after_prefix(s: Seq<char>, p: Seq<char>) -> Option<Seq<char>> {
    if has_prefix(s, p) {
        Some(s.skip(p.len() as int))
    } else {
        None
    }
}

/// The first position from `i` on at which `pat` stands in `s`.
pub open spec fn find_from(s: Seq<char>, pat: Seq<char>, i: int) -> Option<int>
    decreases s.len() - i + 1,
{
    if i < 0 || i + pat.len() > s.len() {
        None
    } else if occurs_at(s, pat, i) {
        Some(i)
    } else {
        find_from(s, pat, i + 1)
    }
}

/// The first position at which `pat` stands in `s`.
pub open spec fn find_in(s: Seq<char>, pat: Seq<char>) -> Option<int> {
    find_from(s, pat, 0)
}

/// The number of non-overlapping places, taken from the left, at which `pat`
/// stands in `s` from position `i` on. The empty pattern stands before every
/// character and at the end.
pub open spec fn count_from(s: Seq<char>, pat: Seq<char>, i: int) -> nat
    decreases s.len() - i + 1,
    when 0 <= i
    via count_from_decreases
{
    match find_from(s, pat, i) {
        Some(k) => 1 + count_from(s, pat, k + (if pat.len() == 0 { 1 } else { pat.len() as int })),
        None => 0,
    }
}

#[via_fn]
proof fn count_from_decreases(s: Seq<char>, pat: Seq<char>, i: int) {
    lemma_find_from(s, pat, i);
}

/// The number of positions from `i` on at which `pat` stands in `s`, overlaps
/// included.
pub open spec fn places_from(s: Seq<char>, pat: Seq<char>, i: int) -> nat
    decreases s.len() - i + 1,
{
    if i < 0 || i > s.len() {
        0
    } else if occurs_at(s, pat, i) {
        1 + places_from(s, pat, i + 1)
    } else {
        places_from(s, pat, i + 1)
    }
}

/// The position of the first `c` in `s`, or the length of `s` where there is none.
pub open spec fn index_of_char(s: Seq<char>, c: char) -> int
    decreases s.len(),
{
    if s.len() == 0 || s[0] == c {
        0
    } else {
        1 + index_of_char(s.skip(1), c)
    }
}

/// The position of the first white space in `s`, or the length of `s`.
pub open spec fn index_of_space(s: Seq<char>) -> int
    decreases s.len(),
{
    if s.len() == 0 || is_space(s[0]) {
        0
    } else {
        1 + index_of_space(s.skip(1))
    }
}

/// A line without the carriage return before its line feed.
pub open spec fn strip_cr(s: Seq<char>) -> Seq<char> {
    if s.len() > 0 && s.last() == '\r' {
        s.drop_last()
    } else {
        s
    }
}

/// The lines of `s`: pieces ended by a line feed (with an optional carriage
/// return before it), and what is left after the last line feed, if anything.
pub open spec fn lines_of(s: Seq<char>) -> Seq<Seq<char>>
    decreases s.len(),
    via lines_of_decreases
{
    if s.len() == 0 {
        Seq::empty()
    } else {
        let i = index_of_char(s, '\n');
        if i >= s.len() {
            seq![s]
        } else {
            seq![strip_cr(s.take(i))] + lines_of(s.skip(i + 1))
        }
    }
}

#[via_fn]
proof fn lines_of_decreases(s: Seq<char>) {
    lemma_index_of_char(s, '\n');
}

/// The pieces of `s` between the occurrences of `c`.
pub open spec fn split_of(s: Seq<char>, c: char) -> Seq<Seq<char>>
    decreases s.len(),
    via split_of_decreases
{
    let i = index_of_char(s, c);
    if i >= s.len() {
        seq![s]
    } else {
        seq![s.take(i)] + split_of(s.skip(i + 1), c)
    }
}

#[via_fn]
proof fn split_of_decreases(s: Seq<char>, c: char) {
    lemma_index_of_char(s, c);
}

/// The maximal pieces of `s` without white space.
pub open spec fn words_of(s: Seq<char>) -> Seq<Seq<char>>
    decreases s.len(),
    via words_of_decreases
{
    let t = trim_start_of(s);
    if t.len() == 0 {
        Seq::empty()
    } else {
        let i = index_of_space(t);
        seq![t.take(i)] + words_of(t.skip(i))
    }
}

#[via_fn]
proof fn words_of_decreases(s: Seq<char>) {
    lemma_trim_start(s);
    lemma_index_of_space(trim_start_of(s));
}

pub proof fn lemma_index_of_char(s: Seq<char>, c: char)
    ensures
        0 <= index_of_char(s, c) <= s.len(),
        index_of_char(s, c) < s.len() ==> s[index_of_char(s, c)] == c,
        forall|j: int| 0 <= j < index_of_char(s, c) ==> s[j] != c,
    decreases s.len(),
{
    if s.len() > 0 && s[0] != c {
        lemma_index_of_char(s.skip(1), c);
        let k = index_of_char(s.skip(1), c);
        assert forall|j: int| 0 <= j < 1 + k implies s[j] != c by {
            if j > 0 {
                assert(s.skip(1)[j - 1] == s[j]);
            }
        }
    }
}

pub proof fn lemma_index_of_char_unique(s: Seq<char>, c: char, k: int)
    requires
        0 <= k <= s.len(),
        k < s.len() ==> s[k] == c,
        forall|j: int| 0 <= j < k ==> s[j] != c,
    ensures
        index_of_char(s, c) == k,
{
    lemma_index_of_char(s, c);
}

pub proof fn lemma_index_of_space(s: Seq<char>)
    ensures
        0 <= index_of_space(s) <= s.len(),
        index_of_space(s) < s.len() ==> is_space(s[index_of_space(s)]),
        forall|j: int| 0 <= j < index_of_space(s) ==> !is_space(s[j]),
    decreases s.len(),
{
    if s.len() > 0 && !is_space(s[0]) {
        lemma_index_of_space(s.skip(1));
        let k = index_of_space(s.skip(1));
        assert forall|j: int| 0 <= j < 1 + k implies !is_space(s[j]) by {
            if j > 0 {
                assert(s.skip(1)[j - 1] == s[j]);
            }
        }
    }
}

pub proof fn lemma_trim_start(s: Seq<char>)
    ensures
        trim_start_of(s).len() <= s.len(),
        trim_start_of(s) == s.skip(s.len() - trim_start_of(s).len()),
        trim_start_of(s).len() > 0 ==> !is_space(trim_start_of(s)[0]),
        forall|j: int| 0 <= j < s.len() - trim_start_of(s).len() ==> is_space(s[j]),
    decreases s.len(),
{
    if s.len() > 0 && is_space(s[0]) {
        lemma_trim_start(s.skip(1));
        let t = trim_start_of(s);
        assert(s.skip(1).skip(s.len() - 1 - t.len()) =~= s.skip(s.len() - t.len()));
        assert forall|j: int| 0 <= j < s.len() - t.len() implies is_space(s[j]) by {
            if j > 0 {
                assert(s.skip(1)[j - 1] == s[j]);
            }
        }
    } else {
        assert(s.skip(0) =~= s);
    }
}

proof fn lemma_trim_end(s: Seq<char>)
    ensures
        trim_end_of(s).len() <= s.len(),
        s.len() > 0 && is_space(s.last()) ==> trim_end_of(s).len() < s.len(),
    decreases s.len(),
{
    if s.len() > 0 && is_space(s.last()) {
        lemma_trim_end(s.drop_last());
    }
}

/// A line feed behind a text is trimmed away, and nothing else, where there is no
/// white space around the text itself.
pub proof fn lemma_trim_line(s: Seq<char>)
    requires
        s.len() > 0,
        trim_of(s) == s,
    ensures
        !is_space(s[0]),
        !is_space(s.last()),
        trim_of(s.push('\n')) == s,
{
    lemma_trim_start(s);
    lemma_trim_end(trim_start_of(s));
    assert(trim_start_of(s) == s);
    let line = s.push('\n');
    assert(line[0] == s[0]);
    assert(line.drop_last() =~= s);
}

pub proof fn lemma_find_from(s: Seq<char>, pat: Seq<char>, i: int)
    requires
        0 <= i,
    ensures
        match find_from(s, pat, i) {
            Some(k) => {
                &&& i <= k
                &&& occurs_at(s, pat, k)
                &&& forall|j: int| i <= j < k ==> !occurs_at(s, pat, j)
            },
            None => forall|j: int| i <= j ==> !occurs_at(s, pat, j),
        },
    decreases s.len() - i + 1,
{
    if i + pat.len() <= s.len() && !occurs_at(s, pat, i) {
        lemma_find_from(s, pat, i + 1);
    }
}

pub proof fn lemma_occurs_in(s: Seq<char>, pat: Seq<char>)
    ensures
        occurs_in(s, pat) == find_in(s, pat) is Some,
{
    lemma_find_from(s, pat, 0);
}

/// Appends one character (`String::push`): the string is as before with the
/// character added at its end.
#[verifier::external_body]
pub(crate) fn push_char(s: &mut String, c: char)
    ensures
        final(s)@ == old(s)@.push(c),
{
    s.push(c)
}

/// The characters of `s`.
pub fn chars_of(s: &str) -> (r: Vec<char>)
    ensures
        r@ == s@,
{
    let mut out: Vec<char> = Vec::new();
    for c in it: s.chars()
        invariant
            it.seq() == s@,
            out@ == s@.take(it.index() as int),
    {
        out.push(c);
        assert(s@.take(it.index() as int).push(c) =~= s@.take(it.index() as int + 1));
    }
    assert(s@.take(s@.len() as int) =~= s@);
    out
}

/// The text of the characters `v[from..to]`.
pub fn text_of(v: &Vec<char>, from: usize, to: usize) -> (r: String)
    requires
        from <= to <= v@.len(),
    ensures
        r@ == v@.subrange(from as int, to as int),
{
    let mut out = String::new();
    let mut i: usize = from;
    assert(v@.subrange(from as int, from as int) =~= Seq::<char>::empty());
    while i < to
        invariant
            from <= i <= to <= v@.len(),
            out@ == v@.subrange(from as int, i as int),
        decreases to - i,
    {
        push_char(&mut out, v[i]);
        assert(v@.subrange(from as int, i as int).push(v@[i as int]) =~= v@.subrange(
            from as int,
            i + 1,
        ));
        i += 1;
    }
    out
}

pub fn space(c: char) -> (r: bool)
    ensures
        r == is_space(c),
{
    let n: u32 = c as u32;
    (0x9 <= n && n <= 0xd) || n == 0x20 || n == 0x85 || n == 0xa0 || n == 0x1680 || (0x2000 <= n
        && n <= 0x200a) || n == 0x2028 || n == 0x2029 || n == 0x202f || n == 0x205f || n == 0x3000
}

/// Whether two texts are the same.
pub fn same(a: &str, b: &str) -> (r: bool)
    ensures
        r == (a@ == b@),
{
    let x = chars_of(a);
    let y = chars_of(b);
    assert(x@.subrange(0, x@.len() as int) =~= x@);
    x.len() == y.len() && stands_at(&x, &y, 0)
}

/// Whether `pat` stands in `v` at position `i`.
pub fn stands_at(v: &Vec<char>, pat: &Vec<char>, i: usize) -> (r: bool)
    ensures
        r == occurs_at(v@, pat@, i as int),
{
    if i > v.len() || v.len() - i < pat.len() {
        return false;
    }
    let mut k: usize = 0;
    while k < pat.len()
        invariant
            i + pat@.len() <= v.len(),
            k <= pat@.len(),
            forall|j: int| 0 <= j < k ==> v@[i + j] == pat@[j],
        decreases pat@.len() - k,
    {
        if v[i + k] != pat[k] {
            assert(v@.subrange(i as int, i + pat@.len())[k as int] != pat@[k as int]);
            return false;
        }
        k += 1;
    }
    assert(v@.subrange(i as int, i + pat@.len()) =~= pat@);
    true
}

/// Whether `s` starts with `p`.
pub fn starts_with(s: &str, p: &str) -> (r: bool)
    ensures
        r == has_prefix(s@, p@),
{
    let v = chars_of(s);
    let w = chars_of(p);
    stands_at(&v, &w, 0)
}

/// What follows the prefix `p` of `s`, if `s` starts with `p`.
pub fn strip_prefix(s: &str, p: &str) -> (r: Option<String>)
    ensures
        opt_view(r) == after_prefix(s@, p@),
{
    let v = chars_of(s);
    let w = chars_of(p);
    if stands_at(&v, &w, 0) {
        assert(v@.subrange(w@.len() as int, v@.len() as int) =~= v@.skip(w@.len() as int));
        Some(text_of(&v, w.len(), v.len()))
    } else {
        None
    }
}

/// The first position from `from` on at which `pat` stands in `v`.
pub fn search_from(v: &Vec<char>, pat: &Vec<char>, from: usize) -> (r: Option<usize>)
    ensures
        match r {
            Some(k) => find_from(v@, pat@, from as int) == Some(k as int),
            None => find_from(v@, pat@, from as int) is None,
        },
{
    let mut i: usize = from;
    while i <= v.len() && v.len() - i >= pat.len()
        invariant
            from <= i,
            find_from(v@, pat@, from as int) == find_from(v@, pat@, i as int),
        decreases v@.len() + 1 - i,
    {
        if stands_at(v, pat, i) {
            return Some(i);
        }
        if i == v.len() {
            assert(find_from(v@, pat@, i + 1) is None);
            return None;
        }
        i += 1;
    }
    None
}

/// Whether `pat` stands somewhere in `s`.
pub fn contains(s: &str, pat: &str) -> (r: bool)
    ensures
        r == occurs_in(s@, pat@),
{
    let v = chars_of(s);
    let w = chars_of(pat);
    proof {
        lemma_occurs_in(v@, w@);
    }
    search_from(&v, &w, 0).is_some()
}

proof fn lemma_count_empty(s: Seq<char>, pat: Seq<char>, i: int)
    requires
        pat.len() == 0,
        0 <= i <= s.len() + 1,
    ensures
        count_from(s, pat, i) == s.len() + 1 - i,
    decreases s.len() + 1 - i,
{
    if i <= s.len() {
        assert(s.subrange(i, i) =~= pat);
        assert(occurs_at(s, pat, i));
        lemma_count_empty(s, pat, i + 1);
    }
}

/// The number of non-overlapping places at which `pat` stands in `s`.
pub fn count_matches(s: &str, pat: &str) -> (r: u128)
    ensures
        r == count_from(s@, pat@, 0),
{
    let v = chars_of(s);
    let w = chars_of(pat);
    if w.len() == 0 {
        proof {
            lemma_count_empty(v@, w@, 0);
        }
        return v.len() as u128 + 1;
    }
    let mut n: u128 = 0;
    let mut i: usize = 0;
    loop
        invariant
            v@ == s@,
            w@ == pat@,
            w@.len() > 0,
            n <= i <= v.len(),
            count_from(s@, pat@, 0) == n + count_from(s@, pat@, i as int),
        decreases v@.len() - i,
    {
        proof {
            lemma_find_from(v@, w@, i as int);
        }
        match search_from(&v, &w, i) {
            Some(k) => {
                assert(k + w@.len() <= v.len());
                i = k + w.len();
                n += 1;
            },
            None => {
                return n;
            },
        }
    }
}

/// The number of positions at which `pat` stands in `s`, overlaps included.
pub fn count_places(s: &str, pat: &str) -> (r: u128)
    ensures
        r == places_from(s@, pat@, 0),
{
    let v = chars_of(s);
    let w = chars_of(pat);
    let mut n: u128 = 0;
    let mut i: usize = 0;
    loop
        invariant
            v@ == s@,
            w@ == pat@,
            n <= i <= v.len(),
            places_from(s@, pat@, 0) == n + places_from(s@, pat@, i as int),
        decreases v@.len() - i,
    {
        if stands_at(&v, &w, i) {
            n += 1;
        }
        if i == v.len() {
            assert(places_from(s@, pat@, i + 1) == 0);
            return n;
        }
        i += 1;
    }
}

/// `s` without the white space it starts with.
pub fn trim_start(s: &str) -> (r: String)
    ensures
        r@ == trim_start_of(s@),
{
    let v = chars_of(s);
    let i = start_of_text(&v, 0);
    assert(v@.skip(0) =~= v@);
    assert(v@.subrange(i as int, v@.len() as int) =~= v@.skip(i as int));
    text_of(&v, i, v.len())
}

/// The first position from `from` on that holds no white space.
fn start_of_text(v: &Vec<char>, from: usize) -> (i: usize)
    requires
        from <= v@.len(),
    ensures
        from <= i <= v@.len(),
        v@.skip(i as int) == trim_start_of(v@.skip(from as int)),
{
    let mut i: usize = from;
    while i < v.len() && space(v[i])
        invariant
            from <= i <= v@.len(),
            trim_start_of(v@.skip(from as int)) == trim_start_of(v@.skip(i as int)),
        decreases v@.len() - i,
    {
        assert(v@.skip(i as int)[0] == v@[i as int]);
        assert(v@.skip(i as int).skip(1) =~= v@.skip(i + 1));
        i += 1;
    }
    if i < v.len() {
        assert(v@.skip(i as int)[0] == v@[i as int]);
    }
    i
}

/// The position after the last character of `v[from..]` that is no white space.
fn end_of_text(v: &Vec<char>, from: usize) -> (i: usize)
    requires
        from <= v@.len(),
    ensures
        from <= i <= v@.len(),
        v@.subrange(from as int, i as int) == trim_end_of(v@.skip(from as int)),
{
    let mut i: usize = v.len();
    assert(v@.subrange(from as int, i as int) =~= v@.skip(from as int));
    while i > from && space(v[i - 1])
        invariant
            from <= i <= v@.len(),
            trim_end_of(v@.skip(from as int)) == trim_end_of(v@.subrange(from as int, i as int)),
        decreases i,
    {
        let ghost cur = v@.subrange(from as int, i as int);
        assert(cur.last() == v@[i - 1]);
        assert(cur.drop_last() =~= v@.subrange(from as int, i - 1));
        i -= 1;
    }
    if i > from {
        assert(v@.subrange(from as int, i as int).last() == v@[i - 1]);
    }
    i
}

/// `s` without the white space it ends with.
pub fn trim_end(s: &str) -> (r: String)
    ensures
        r@ == trim_end_of(s@),
{
    let v = chars_of(s);
    let i = end_of_text(&v, 0);
    assert(v@.skip(0) =~= v@);
    text_of(&v, 0, i)
}

/// `s` without the white space around it.
pub fn trim(s: &str) -> (r: String)
    ensures
        r@ == trim_of(s@),
{
    let v = chars_of(s);
    let i = start_of_text(&v, 0);
    let j = end_of_text(&v, i);
    assert(v@.skip(0) =~= v@);
    text_of(&v, i, j)
}

/// `s` without the run of `c` it starts with.
pub fn trim_start_char(s: &str, c: char) -> (r: String)
    ensures
        r@ == trim_start_char_of(s@, c),
{
    let v = chars_of(s);
    let mut i: usize = 0;
    assert(v@.skip(0) =~= v@);
    while i < v.len() && v[i] == c
        invariant
            v@ == s@,
            i <= v@.len(),
            trim_start_char_of(s@, c) == trim_start_char_of(v@.skip(i as int), c),
        decreases v@.len() - i,
    {
        assert(v@.skip(i as int)[0] == v@[i as int]);
        assert(v@.skip(i as int).skip(1) =~= v@.skip(i + 1));
        i += 1;
    }
    if i < v.len() {
        assert(v@.skip(i as int)[0] == v@[i as int]);
    }
    assert(v@.subrange(i as int, v@.len() as int) =~= v@.skip(i as int));
    text_of(&v, i, v.len())
}

/// `s` without the run of `c` it ends with.
pub fn trim_end_char(s: &str, c: char) -> (r: String)
    ensures
        r@ == trim_end_char_of(s@, c),
{
    let v = chars_of(s);
    let mut i: usize = v.len();
    assert(v@.take(i as int) =~= v@);
    while i > 0 && v[i - 1] == c
        invariant
            v@ == s@,
            i <= v@.len(),
            trim_end_char_of(s@, c) == trim_end_char_of(v@.take(i as int), c),
        decreases i,
    {
        assert(v@.take(i as int).last() == v@[i - 1]);
        assert(v@.take(i as int).drop_last() =~= v@.take(i - 1));
        i -= 1;
    }
    if i > 0 {
        assert(v@.take(i as int).last() == v@[i - 1]);
    }
    assert(v@.subrange(0, i as int) =~= v@.take(i as int));
    text_of(&v, 0, i)
}

/// `s` without the carriage returns and line feeds it ends with.
pub fn trim_newlines(s: &str) -> (r: String)
    ensures
        r@ == trim_newlines_of(s@),
{
    let v = chars_of(s);
    let mut i: usize = v.len();
    assert(v@.take(i as int) =~= v@);
    while i > 0 && (v[i - 1] == '\r' || v[i - 1] == '\n')
        invariant
            v@ == s@,
            i <= v@.len(),
            trim_newlines_of(s@) == trim_newlines_of(v@.take(i as int)),
        decreases i,
    {
        assert(v@.take(i as int).last() == v@[i - 1]);
        assert(v@.take(i as int).drop_last() =~= v@.take(i - 1));
        i -= 1;
    }
    if i > 0 {
        assert(v@.take(i as int).last() == v@[i - 1]);
    }
    assert(v@.subrange(0, i as int) =~= v@.take(i as int));
    text_of(&v, 0, i)
}

/// The position of the first `c` in `v[from..]`, or the end of `v`.
pub fn position_of(v: &Vec<char>, c: char, from: usize) -> (r: usize)
    requires
        from <= v@.len(),
    ensures
        from <= r <= v@.len(),
        r - from == index_of_char(v@.skip(from as int), c),
{
    let mut i: usize = from;
    while i < v.len() && v[i] != c
        invariant
            from <= i <= v@.len(),
            forall|j: int| from <= j < i ==> v@[j] != c,
        decreases v@.len() - i,
    {
        i += 1;
    }
    proof {
        lemma_index_of_char_unique(v@.skip(from as int), c, i - from);
    }
    i
}

/// The lines of `s`.
pub fn lines(s: &str) -> (r: Vec<String>)
    ensures
        views(r@) == lines_of(s@),
{
    let v = chars_of(s);
    let mut out: Vec<String> = Vec::new();
    let mut at: usize = 0;
    assert(v@.skip(0) =~= v@);
    assert(views(out@) + lines_of(s@) =~= lines_of(s@));
    while at < v.len()
        invariant
            v@ == s@,
            at <= v@.len(),
            lines_of(s@) == views(out@) + lines_of(v@.skip(at as int)),
        decreases v@.len() - at,
    {
        broadcast use lemma_views_push;

        let ghost rest = v@.skip(at as int);
        let ghost before = views(out@);
        let end = position_of(&v, '\n', at);
        if end == v.len() {
            assert(v@.subrange(at as int, end as int) =~= rest);
            out.push(text_of(&v, at, end));
            at = v.len();
            assert(v@.skip(at as int) =~= Seq::<char>::empty());
            assert(before.push(rest) =~= before + seq![rest]);
            assert(views(out@) + Seq::<Seq<char>>::empty() =~= views(out@));
        } else {
            let stop = if end > at && v[end - 1] == '\r' { end - 1 } else { end };
            assert(rest.take(end - at) =~= v@.subrange(at as int, end as int));
            if end > at {
                assert(rest.take(end - at).last() == v@[end - 1]);
            }
            assert(v@.subrange(at as int, stop as int) =~= strip_cr(rest.take(end - at)));
            out.push(text_of(&v, at, stop));
            assert(rest.skip(end - at + 1) =~= v@.skip(end + 1));
            at = end + 1;
            let ghost head = strip_cr(rest.take(index_of_char(rest, '\n')));
            let ghost tail = lines_of(v@.skip(end + 1));
            assert(before.push(head) + tail =~= before + (seq![head] + tail));
        }
    }
    assert(v@.skip(at as int) =~= Seq::<char>::empty());
    assert(views(out@) + Seq::<Seq<char>>::empty() =~= views(out@));
    out
}

/// The pieces of `s` between the occurrences of `c`.
pub fn split(s: &str, c: char) -> (r: Vec<String>)
    ensures
        views(r@) == split_of(s@, c),
{
    let v = chars_of(s);
    let mut out: Vec<String> = Vec::new();
    let mut at: usize = 0;
    assert(v@.skip(0) =~= v@);
    assert(views(out@) + split_of(s@, c) =~= split_of(s@, c));
    loop
        invariant
            v@ == s@,
            at <= v@.len(),
            split_of(s@, c) == views(out@) + split_of(v@.skip(at as int), c),
        decreases v@.len() - at,
    {
        broadcast use lemma_views_push;

        let ghost rest = v@.skip(at as int);
        let ghost before = views(out@);
        let end = position_of(&v, c, at);
        if end == v.len() {
            assert(v@.subrange(at as int, end as int) =~= rest);
            out.push(text_of(&v, at, end));
            assert(before.push(rest) =~= before + seq![rest]);
            return out;
        }
        assert(v@.subrange(at as int, end as int) =~= rest.take(end - at));
        out.push(text_of(&v, at, end));
        assert(rest.skip(end - at + 1) =~= v@.skip(end + 1));
        at = end + 1;
        let ghost head = rest.take(index_of_char(rest, c));
        let ghost tail = split_of(v@.skip(end + 1), c);
        assert(before.push(head) + tail =~= before + (seq![head] + tail));
    }
}

/// The maximal pieces of `s` without white space.
pub fn words(s: &str) -> (r: Vec<String>)
    ensures
        views(r@) == words_of(s@),
{
    let v = chars_of(s);
    let mut out: Vec<String> = Vec::new();
    let mut at: usize = 0;
    assert(v@.skip(0) =~= v@);
    assert(views(out@) + words_of(s@) =~= words_of(s@));
    loop
        invariant
            v@ == s@,
            at <= v@.len(),
            words_of(s@) == views(out@) + words_of(v@.skip(at as int)),
        decreases v@.len() - at,
    {
        broadcast use lemma_views_push;

        let ghost before = views(out@);
        let start = start_of_text(&v, at);
        let ghost t = v@.skip(start as int);
        if start == v.len() {
            assert(views(out@) + Seq::<Seq<char>>::empty() =~= views(out@));
            return out;
        }
        let mut end: usize = start;
        while end < v.len() && !space(v[end])
            invariant
                start <= end <= v@.len(),
                forall|j: int| start <= j < end ==> !is_space(v@[j]),
            decreases v@.len() - end,
        {
            end += 1;
        }
        proof {
            lemma_index_of_space(t);
            lemma_trim_start(v@.skip(at as int));
            let i = index_of_space(t);
            if i < end - start {
                assert(is_space(v@[start + i]));
            }
            if i > end - start {
                assert(t[end - start] == v@[end as int]);
            }
            if end == start {
                assert(t[0] == v@[start as int]);
            }
        }
        assert(v@.subrange(start as int, end as int) =~= t.take(end - start));
        out.push(text_of(&v, start, end));
        assert(t.skip(end - start) =~= v@.skip(end as int));
        at = end;
        let ghost head = t.take(index_of_space(t));
        let ghost tail = words_of(v@.skip(end as int));
        assert(before.push(head) + tail =~= before + (seq![head] + tail));
    }
}

/// `s` up to the first `pat`, and what follows it; where there is no `pat`, all
/// of `s` and nothing.
pub fn split_at_first(s: &str, pat: &str) -> (r: (String, Option<String>))
    ensures
        match find_in(s@, pat@) {
            Some(k) => {
                &&& r.0@ == s@.take(k)
                &&& r.1 matches Some(rest)
                &&& rest@ == s@.skip(k + pat@.len())
            },
            None => r.0@ == s@ && r.1 is None,
        },
{
    let v = chars_of(s);
    let w = chars_of(pat);
    proof {
        lemma_find_from(v@, w@, 0);
    }
    match search_from(&v, &w, 0) {
        Some(k) => {
            assert(k + w@.len() <= v.len());
            assert(v@.subrange(0, k as int) =~= v@.take(k as int));
            assert(v@.subrange(k + w@.len(), v@.len() as int) =~= v@.skip(k + w@.len()));
            (text_of(&v, 0, k), Some(text_of(&v, k + w.len(), v.len())))
        },
        None => {
            assert(v@.subrange(0, v@.len() as int) =~= v@);
            (text_of(&v, 0, v.len()), None)
        },
    }
}

pub fn cat2(a: &str, b: &str) -> (r: String)
    ensures
        r@ == a@ + b@,
{
    let mut out = a.to_owned();
    out.append(b);
    out
}

pub fn cat3(a: &str, b: &str, c: &str) -> (r: String)
    ensures
        r@ == a@ + b@ + c@,
{
    let mut out = a.to_owned();
    out.append(b);
    out.append(c);
    out
}

pub fn cat4(a: &str, b: &str, c: &str, d: &str) -> (r: String)
    ensures
        r@ == a@ + b@ + c@ + d@,
{
    let mut out = a.to_owned();
    out.append(b);
    out.append(c);
    out.append(d);
    out
}

pub fn cat5(a: &str, b: &str, c: &str, d: &str, e: &str) -> (r: String)
    ensures
        r@ == a@ + b@ + c@ + d@ + e@,
{
    let mut out = a.to_owned();
    out.append(b);
    out.append(c);
    out.append(d);
    out.append(e);
    out
}

/// The digit that stands for `d`.
pub open spec fn digit_of(d: int) -> char {
    if d == 0 {
        '0'
    } else if d == 1 {
        '1'
    } else if d == 2 {
        '2'
    } else if d == 3 {
        '3'
    } else if d == 4 {
        '4'
    } else if d == 5 {
        '5'
    } else if d == 6 {
        '6'
    } else if d == 7 {
        '7'
    } else if d == 8 {
        '8'
    } else {
        '9'
    }
}

/// `n` in decimal, without leading zeros.
pub open spec fn decimal_of(n: nat) -> Seq<char>
    decreases n,
{
    if n < 10 {
        seq![digit_of(n as int)]
    } else {
        decimal_of(n / 10).push(digit_of((n % 10) as int))
    }
}

/// A signed number in decimal.
pub open spec fn signed_of(n: int) -> Seq<char> {
    if n < 0 {
        seq!['-'] + decimal_of((-n) as nat)
    } else {
        decimal_of(n as nat)
    }
}

fn digit(d: u128) -> (c: char)
    requires
        d < 10,
    ensures
        c == digit_of(d as int),
{
    match d {
        0 => '0',
        1 => '1',
        2 => '2',
        3 => '3',
        4 => '4',
        5 => '5',
        6 => '6',
        7 => '7',
        8 => '8',
        _ => '9',
    }
}

/// `n` in decimal.
pub fn decimal(n: u128) -> (r: String)
    ensures
        r@ == decimal_of(n as nat),
    decreases n,
{
    if n < 10 {
        let mut out = String::new();
        push_char(&mut out, digit(n));
        assert(out@ =~= seq![digit_of(n as int)]);
        out
    } else {
        let mut out = decimal(n / 10);
        push_char(&mut out, digit(n % 10));
        out
    }
}

/// A signed number in decimal.
pub fn signed(n: i32) -> (r: String)
    ensures
        r@ == signed_of(n as int),
{
    if n < 0 {
        let mut out = String::new();
        push_char(&mut out, '-');
        assert(out@ =~= seq!['-']);
        let m: u128 = (-(n as i64)) as u128;
        out.append(decimal(m).as_str());
        out
    } else {
        decimal(n as u128)
    }
}

/// The value of a decimal digit.
pub open spec fn digit_value(c: char) -> Option<nat> {
    if '0' <= c && c <= '9' {
        Some((c as u32 - '0' as u32) as nat)
    } else {
        None
    }
}

/// The value of a row of digits; none where another character stands in it.
pub open spec fn digits_value(s: Seq<char>) -> Option<nat>
    decreases s.len(),
{
    if s.len() == 0 {
        Some(0)
    } else {
        match (digits_value(s.drop_last()), digit_value(s.last())) {
            (Some(n), Some(d)) => Some(n * 10 + d),
            _ => None,
        }
    }
}

/// What `s` is worth as an unsigned 32-bit number: an optional plus sign and
/// at least one digit, within range.
pub open spec fn u32_value(s: Seq<char>) -> Option<u32> {
    let body = if s.len() > 0 && s[0] == '+' {
        s.skip(1)
    } else {
        s
    };
    if body.len() == 0 {
        None
    } else {
        match digits_value(body) {
            Some(n) => if n <= u32::MAX {
                Some(n as u32)
            } else {
                None
            },
            None => None,
        }
    }
}

/// A row of digits that starts out of range stays out of range.
proof fn lemma_digits_grow(s: Seq<char>, k: int)
    requires
        0 <= k <= s.len(),
    ensures
        match digits_value(s) {
            Some(n) => digits_value(s.take(k)) matches Some(m) && m <= n,
            None => true,
        },
    decreases s.len() - k,
{
    if k == s.len() {
        assert(s.take(k) =~= s);
    } else {
        lemma_digits_grow(s, k + 1);
        assert(s.take(k + 1).drop_last() =~= s.take(k));
    }
}

/// Reads an unsigned 32-bit number.
pub fn parse_u32(s: &str) -> (r: Option<u32>)
    ensures
        r == u32_value(s@),
{
    let v = chars_of(s);
    let start: usize = if v.len() > 0 && v[0] == '+' { 1 } else { 0 };
    let ghost body = v@.skip(start as int);
    assert(start == 0 ==> body =~= v@);
    if v.len() == start {
        return None;
    }
    let mut n: u64 = 0;
    let mut i: usize = start;
    while i < v.len()
        invariant
            v@ == s@,
            start == (if s@.len() > 0 && s@[0] == '+' {
                1int
            } else {
                0
            }),
            body == v@.skip(start as int),
            start == 0 ==> body == s@,
            start <= i <= v@.len(),
            start < v@.len(),
            digits_value(body.take(i - start)) == Some(n as nat),
            n <= u32::MAX,
        decreases v@.len() - i,
    {
        let c = v[i];
        assert(body.take(i - start + 1).drop_last() =~= body.take(i - start));
        assert(body.take(i - start + 1).last() == c);
        if c < '0' || c > '9' {
            proof {
                lemma_digits_grow(body, i - start + 1);
            }
            return None;
        }
        n = n * 10 + (c as u32 - '0' as u32) as u64;
        if n > 4294967295 {
            proof {
                lemma_digits_grow(body, i - start + 1);
            }
            return None;
        }
        i += 1;
    }
    assert(body.take(i - start) =~= body);
    Some(n as u32)
}

/// A row of `n` blanks.
pub open spec fn blanks(n: int) -> Seq<char> {
    Seq::new(
        (if n < 0 {
            0
        } else {
            n
        }) as nat,
        |i: int| ' ',
    )
}

/// `s` filled up on the right with blanks to `width` characters.
pub open spec fn padded_of(s: Seq<char>, width: int) -> Seq<char> {
    s + blanks(width - s.len())
}

/// `s` filled up on the right with blanks to `width` characters.
pub fn padded(s: &str, width: usize) -> (r: String)
    ensures
        r@ == padded_of(s@, width as int),
{
    let n: usize = chars_of(s).len();
    let mut out = s.to_owned();
    let mut i: usize = n;
    assert(out@ =~= s@ + blanks(0));
    while i < width
        invariant
            n == s@.len(),
            n <= i,
            n <= width ==> i <= width,
            n > width ==> i == n,
            out@ == s@ + blanks(i - n),
        decreases width - i,
    {
        push_char(&mut out, ' ');
        assert(out@ =~= s@ + blanks(i + 1 - n));
        i += 1;
    }
    assert(blanks(width - n) =~= blanks(i - n));
    out
}

/// `s` with every `c` replaced by `with`.
pub open spec fn replaced_of(s: Seq<char>, c: char, with: Seq<char>) -> Seq<char>
    decreases s.len(),
{
    if s.len() == 0 {
        Seq::empty()
    } else {
        replaced_of(s.drop_last(), c, with) + (if s.last() == c {
            with
        } else {
            seq![s.last()]
        })
    }
}

/// `s` with every `c` replaced by `with`.
pub fn replaced(s: &str, c: char, with: &str) -> (r: String)
    ensures
        r@ == replaced_of(s@, c, with@),
{
    let v = chars_of(s);
    let mut out = String::new();
    let mut i: usize = 0;
    while i < v.len()
        invariant
            i <= v@.len(),
            out@ == replaced_of(v@.take(i as int), c, with@),
        decreases v@.len() - i,
    {
        let ghost before = out@;
        assert(v@.take(i + 1).drop_last() =~= v@.take(i as int));
        assert(v@.take(i + 1).last() == v@[i as int]);
        if v[i] == c {
            out.append(with);
        } else {
            push_char(&mut out, v[i]);
            assert(out@ =~= before + seq![v@[i as int]]);
        }
        i += 1;
    }
    assert(v@.take(i as int) =~= v@);
    out
}

/// The order of texts: by the first character in which they differ, a proper
/// prefix first.
pub open spec fn precedes(a: Seq<char>, b: Seq<char>) -> bool
    decreases a.len(),
{
    if b.len() == 0 {
        false
    } else if a.len() == 0 {
        true
    } else if a[0] == b[0] {
        precedes(a.skip(1), b.skip(1))
    } else {
        a[0] < b[0]
    }
}

pub proof fn lemma_precedes_irreflexive(a: Seq<char>)
    ensures
        !precedes(a, a),
    decreases a.len(),
{
    if a.len() > 0 {
        lemma_precedes_irreflexive(a.skip(1));
    }
}

pub proof fn lemma_precedes_transitive(a: Seq<char>, b: Seq<char>, c: Seq<char>)
    requires
        precedes(a, b),
        precedes(b, c),
    ensures
        precedes(a, c),
    decreases a.len(),
{
    if a.len() > 0 && b.len() > 0 && c.len() > 0 {
        if a[0] == b[0] && b[0] == c[0] {
            lemma_precedes_transitive(a.skip(1), b.skip(1), c.skip(1));
        }
    }
}

pub proof fn lemma_precedes_total(a: Seq<char>, b: Seq<char>)
    ensures
        a == b || precedes(a, b) || precedes(b, a),
    decreases a.len(),
{
    if a.len() > 0 && b.len() > 0 && a[0] == b[0] {
        lemma_precedes_total(a.skip(1), b.skip(1));
        if a.skip(1) == b.skip(1) {
            assert(a =~= seq![a[0]] + a.skip(1));
            assert(b =~= seq![b[0]] + b.skip(1));
            assert(a == b);
        }
    } else if a.len() == 0 && b.len() == 0 {
        assert(a =~= b);
    }
}

/// Whether `a` comes before `b`.
pub fn comes_before(a: &str, b: &str) -> (r: bool)
    ensures
        r == precedes(a@, b@),
{
    let x = chars_of(a);
    let y = chars_of(b);
    let mut i: usize = 0;
    assert(x@.skip(0) =~= x@);
    assert(y@.skip(0) =~= y@);
    while i < x.len() && i < y.len() && x[i] == y[i]
        invariant
            x@ == a@,
            y@ == b@,
            i <= x@.len(),
            i <= y@.len(),
            precedes(a@, b@) == precedes(x@.skip(i as int), y@.skip(i as int)),
        decreases x@.len() - i,
    {
        assert(x@.skip(i as int).skip(1) =~= x@.skip(i + 1));
        assert(y@.skip(i as int).skip(1) =~= y@.skip(i + 1));
        i += 1;
    }
    if i == y.len() {
        false
    } else if i == x.len() {
        true
    } else {
        x[i] < y[i]
    }
}

} // verus!
