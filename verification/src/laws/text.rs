//! What the operations on text do, told by the characters of the text and of the result.
use vstd::prelude::*;

use crate::text::{
    decimal_of, digits_value, find_in, index_of_char, is_space, lemma_find_from,
    lemma_index_of_char, lemma_index_of_char_unique, lemma_index_of_space, lemma_trim_start,
    lines_of, occurs_at, padded_of, precedes, replaced_of, signed_of, split_of, trim_end_char_of,
    trim_end_of, trim_newlines_of, trim_of, trim_start_char_of, trim_start_of, u32_value,
    words_of,
};

verus! {

/// `t` is what is left of `s` behind `k` characters.
pub open spec fn left_behind(s: Seq<char>, t: Seq<char>, k: int) -> bool {
    0 <= k <= s.len() && t == s.skip(k)
}

/// The blank, the tabulator and the ends of lines are white space; no printed character of
/// ASCII is.
pub proof fn law_white_space(c: char)
    ensures
        c == ' ' || c == '\t' || c == '\n' || c == '\r' ==> is_space(c),
        '!' <= c && c <= '~' ==> !is_space(c),
{
}

/// Trimming the start takes away the white space that a text starts with, and nothing else.
pub proof fn law_trim_start(s: Seq<char>)
    ensures
        ({
            let t = trim_start_of(s);
            let k = s.len() - t.len();
            &&& left_behind(s, t, k)
            &&& forall|j: int| 0 <= j < k ==> is_space(#[trigger] s[j])
            &&& t.len() > 0 ==> !is_space(t[0])
        }),
{
    lemma_trim_start(s);
}

/// Trimming the end takes away the white space that a text ends with, and nothing else.
pub proof fn law_trim_end(s: Seq<char>)
    ensures
        ({
            let t = trim_end_of(s);
            &&& t.len() <= s.len()
            &&& t == s.take(t.len() as int)
            &&& forall|j: int| t.len() <= j < s.len() ==> is_space(#[trigger] s[j])
            &&& t.len() > 0 ==> !is_space(t.last())
        }),
    decreases s.len(),
{
    if s.len() > 0 && is_space(s.last()) {
        let d = s.drop_last();
        law_trim_end(d);
        let t = trim_end_of(s);
        assert(d.take(t.len() as int) =~= s.take(t.len() as int));
        assert forall|j: int| t.len() <= j < s.len() implies is_space(#[trigger] s[j]) by {
            if j < d.len() {
                assert(d[j] == s[j]);
            }
        }
    } else {
        assert(s.take(s.len() as int) =~= s);
    }
}

/// Trimming takes away the white space around a text, and nothing else.
pub proof fn law_trim(s: Seq<char>)
    ensures
        ({
            let t = trim_of(s);
            let k = s.len() - trim_start_of(s).len();
            &&& 0 <= k && k + t.len() <= s.len()
            &&& t == s.subrange(k, k + t.len())
            &&& forall|j: int| 0 <= j < k ==> is_space(#[trigger] s[j])
            &&& forall|j: int| k + t.len() <= j < s.len() ==> is_space(#[trigger] s[j])
            &&& t.len() > 0 ==> !is_space(t[0]) && !is_space(t.last())
        }),
{
    law_trim_start(s);
    let m = trim_start_of(s);
    law_trim_end(m);
    let t = trim_of(s);
    let k = s.len() - m.len();
    assert(t =~= s.subrange(k, k + t.len()));
    assert forall|j: int| k + t.len() <= j < s.len() implies is_space(#[trigger] s[j]) by {
        assert(m[j - k] == s[j]);
    }
    if t.len() > 0 {
        assert(t[0] == m[0]);
    }
}

/// Trimming a character off the start takes away the run of it that a text starts with.
pub proof fn law_trim_start_char(s: Seq<char>, c: char)
    ensures
        ({
            let t = trim_start_char_of(s, c);
            let k = s.len() - t.len();
            &&& left_behind(s, t, k)
            &&& forall|j: int| 0 <= j < k ==> #[trigger] s[j] == c
            &&& t.len() > 0 ==> t[0] != c
        }),
    decreases s.len(),
{
    if s.len() > 0 && s[0] == c {
        let d = s.skip(1);
        law_trim_start_char(d, c);
        let t = trim_start_char_of(s, c);
        let k = s.len() - t.len();
        assert(d.skip(k - 1) =~= s.skip(k));
        assert forall|j: int| 0 <= j < k implies #[trigger] s[j] == c by {
            if j > 0 {
                assert(d[j - 1] == s[j]);
            }
        }
    } else {
        assert(s.skip(0) =~= s);
    }
}

/// Trimming a character off the end takes away the run of it that a text ends with.
pub proof fn law_trim_end_char(s: Seq<char>, c: char)
    ensures
        ({
            let t = trim_end_char_of(s, c);
            &&& t.len() <= s.len()
            &&& t == s.take(t.len() as int)
            &&& forall|j: int| t.len() <= j < s.len() ==> #[trigger] s[j] == c
            &&& t.len() > 0 ==> t.last() != c
        }),
    decreases s.len(),
{
    if s.len() > 0 && s.last() == c {
        let d = s.drop_last();
        law_trim_end_char(d, c);
        let t = trim_end_char_of(s, c);
        assert(d.take(t.len() as int) =~= s.take(t.len() as int));
        assert forall|j: int| t.len() <= j < s.len() implies #[trigger] s[j] == c by {
            if j < d.len() {
                assert(d[j] == s[j]);
            }
        }
    } else {
        assert(s.take(s.len() as int) =~= s);
    }
}

/// Trimming the ends of lines takes away those that a text ends with, and nothing else.
pub proof fn law_trim_newlines(s: Seq<char>)
    ensures
        ({
            let t = trim_newlines_of(s);
            &&& t.len() <= s.len()
            &&& t == s.take(t.len() as int)
            &&& forall|j: int|
                t.len() <= j < s.len() ==> #[trigger] s[j] == '\r' || s[j] == '\n'
            &&& t.len() > 0 ==> t.last() != '\r' && t.last() != '\n'
        }),
    decreases s.len(),
{
    if s.len() > 0 && (s.last() == '\r' || s.last() == '\n') {
        let d = s.drop_last();
        law_trim_newlines(d);
        let t = trim_newlines_of(s);
        assert(d.take(t.len() as int) =~= s.take(t.len() as int));
        assert forall|j: int| t.len() <= j < s.len() implies #[trigger] s[j] == '\r' || s[j]
            == '\n' by {
            if j < d.len() {
                assert(d[j] == s[j]);
            }
        }
    } else {
        assert(s.take(s.len() as int) =~= s);
    }
}

/// A text is found at the first place where it stands, exactly if it stands somewhere.
pub proof fn law_find(s: Seq<char>, pat: Seq<char>)
    ensures
        match find_in(s, pat) {
            Some(k) => 0 <= k && k + pat.len() <= s.len() && s.subrange(k, k + pat.len()) == pat
                && forall|j: int|
                0 <= j < k && j + pat.len() <= s.len() ==> #[trigger] s.subrange(j, j + pat.len())
                    != pat,
            None => forall|j: int|
                0 <= j && j + pat.len() <= s.len() ==> #[trigger] s.subrange(j, j + pat.len())
                    != pat,
        },
{
    lemma_find_from(s, pat, 0);
    assert forall|j: int|
        0 <= j && j + pat.len() <= s.len() && !occurs_at(s, pat, j) implies #[trigger] s.subrange(
        j,
        j + pat.len(),
    ) != pat by {}
}

/// What stands before the first line feed is the first line, without the carriage return
/// at its end; the other lines are those of the rest.
pub proof fn law_first_line(line: Seq<char>, rest: Seq<char>)
    requires
        forall|i: int| 0 <= i < line.len() ==> line[i] != '\n',
    ensures
        lines_of(line.push('\n') + rest) == seq![
            if line.len() > 0 && line.last() == '\r' {
                line.drop_last()
            } else {
                line
            },
        ] + lines_of(rest),
{
    let s = line.push('\n') + rest;
    lemma_index_of_char_unique(s, '\n', line.len() as int);
    assert(s.take(line.len() as int) =~= line);
    assert(s.skip(line.len() as int + 1) =~= rest);
}

/// A text without a line feed is one line, or none where it is empty.
pub proof fn law_last_line(line: Seq<char>)
    requires
        forall|i: int| 0 <= i < line.len() ==> line[i] != '\n',
    ensures
        lines_of(line) == (if line.len() == 0 {
            Seq::<Seq<char>>::empty()
        } else {
            seq![line]
        }),
{
    lemma_index_of_char_unique(line, '\n', line.len() as int);
}

/// The pieces, with `c` between them.
pub open spec fn joined_by(pieces: Seq<Seq<char>>, c: char) -> Seq<char>
    decreases pieces.len(),
{
    if pieces.len() == 0 {
        Seq::empty()
    } else if pieces.len() == 1 {
        pieces[0]
    } else {
        pieces[0].push(c) + joined_by(pieces.skip(1), c)
    }
}

/// Splitting a text loses nothing: its pieces hold no separator, and with the separator
/// between them they are the text.
pub proof fn law_split(s: Seq<char>, c: char)
    ensures
        split_of(s, c).len() > 0,
        joined_by(split_of(s, c), c) == s,
        forall|i: int| 0 <= i < split_of(s, c).len() ==> !(#[trigger] split_of(s, c)[i]).contains(c),
    decreases s.len(),
{
    let i = index_of_char(s, c);
    lemma_index_of_char(s, c);
    let pieces = split_of(s, c);
    if i >= s.len() {
        assert(pieces[0] == s);
    } else {
        let rest = s.skip(i + 1);
        law_split(rest, c);
        assert(pieces.skip(1) =~= split_of(rest, c));
        assert(pieces[0] == s.take(i));
        assert(s.take(i).push(c) + rest =~= s);
        assert forall|j: int| 0 <= j < pieces.len() implies !(#[trigger] pieces[j]).contains(c) by {
            if j > 0 {
                assert(pieces[j] == split_of(rest, c)[j - 1]);
            }
        }
    }
}

/// The words of a text hold no white space and are not empty.
pub proof fn law_words(s: Seq<char>)
    ensures
        forall|i: int|
            0 <= i < words_of(s).len() ==> (#[trigger] words_of(s)[i]).len() > 0 && forall|j: int|
                0 <= j < words_of(s)[i].len() ==> !is_space(#[trigger] words_of(s)[i][j]),
    decreases s.len(),
{
    lemma_trim_start(s);
    let t = trim_start_of(s);
    if t.len() > 0 {
        lemma_index_of_space(t);
        let k = crate::text::index_of_space(t);
        law_words(t.skip(k));
        assert forall|i: int| 0 <= i < words_of(s).len() implies (#[trigger] words_of(s)[i]).len()
            > 0 && forall|j: int|
            0 <= j < words_of(s)[i].len() ==> !is_space(#[trigger] words_of(s)[i][j]) by {
            if i > 0 {
                assert(words_of(s)[i] == words_of(t.skip(k))[i - 1]);
            } else {
                assert(words_of(s)[0] == t.take(k));
            }
        }
    }
}

/// A word and the white space before it, at the front of a text, make its first word; the
/// other words are those of the rest.
pub proof fn law_first_word(before: Seq<char>, word: Seq<char>, rest: Seq<char>)
    requires
        forall|i: int| 0 <= i < before.len() ==> is_space(#[trigger] before[i]),
        word.len() > 0,
        forall|i: int| 0 <= i < word.len() ==> !is_space(#[trigger] word[i]),
        rest.len() > 0 ==> is_space(rest[0]),
    ensures
        words_of(before + word + rest) == seq![word] + words_of(rest),
{
    let s = before + word + rest;
    let t = trim_start_of(s);
    lemma_trim_start(s);
    let k = s.len() - t.len();
    assert(s[before.len() as int] == word[0]);
    if k > before.len() {
        assert(is_space(s[before.len() as int]));
    }
    if k < before.len() {
        assert(t[0] == s[k]);
        assert(s[k] == before[k]);
    }
    assert(t =~= word + rest);
    let n = crate::text::index_of_space(t);
    lemma_index_of_space(t);
    if n < word.len() {
        assert(t[n] == word[n]);
    }
    if n > word.len() {
        assert(t[word.len() as int] == rest[0]);
    }
    assert(t.take(n) =~= word);
    assert(t.skip(n) =~= rest);
}

/// Replacing a character replaces every one of it and leaves the others, in order.
pub proof fn law_replace(s: Seq<char>, d: char, c: char, with: Seq<char>)
    ensures
        replaced_of(Seq::empty(), c, with) == Seq::<char>::empty(),
        replaced_of(s.push(c), c, with) == replaced_of(s, c, with) + with,
        d != c ==> replaced_of(s.push(d), c, with) == replaced_of(s, c, with).push(d),
{
    assert(s.push(c).drop_last() =~= s);
    assert(s.push(d).drop_last() =~= s);
}

/// A text filled up is the text, then blanks, and has the width, or its own where that is
/// more.
pub proof fn law_padded(s: Seq<char>, width: int)
    ensures
        padded_of(s, width).len() == (if s.len() < width {
            width
        } else {
            s.len() as int
        }),
        padded_of(s, width).take(s.len() as int) == s,
        forall|i: int|
            s.len() <= i < padded_of(s, width).len() ==> #[trigger] padded_of(s, width)[i] == ' ',
{
    assert(padded_of(s, width).take(s.len() as int) =~= s);
}

/// A number in decimal reads back as the number, and starts with no zero but for zero
/// itself.
pub proof fn law_decimal(n: nat)
    ensures
        digits_value(decimal_of(n)) == Some(n),
        decimal_of(n).len() > 0,
        n > 0 ==> decimal_of(n)[0] != '0',
        n == 0 ==> decimal_of(n) == seq!['0'],
    decreases n,
{
    if n < 10 {
        let s = decimal_of(n);
        assert(s.drop_last() =~= Seq::empty());
        assert(digits_value(s.drop_last()) == Some(0nat));
    } else {
        law_decimal(n / 10);
        let s = decimal_of(n);
        assert(s.drop_last() =~= decimal_of(n / 10));
        assert(s[0] == decimal_of(n / 10)[0]);
    }
}

/// A number in decimal is digits alone.
pub proof fn law_decimal_digits(n: nat)
    ensures
        forall|i: int|
            0 <= i < decimal_of(n).len() ==> '0' <= #[trigger] decimal_of(n)[i] && decimal_of(n)[i]
                <= '9',
{
    law_decimal(n);
    lemma_digits_only(decimal_of(n));
}

/// A negative number in decimal is a minus sign and the number without its sign.
pub proof fn law_signed(n: nat)
    ensures
        signed_of(n as int) == decimal_of(n),
        n > 0 ==> signed_of(-n) == seq!['-'] + decimal_of(n),
{
}

/// A number reads from its digits, with or without a plus sign before them.
pub proof fn law_u32_reads(n: u32)
    ensures
        u32_value(decimal_of(n as nat)) == Some(n),
        u32_value(seq!['+'] + decimal_of(n as nat)) == Some(n),
{
    law_decimal(n as nat);
    let s = decimal_of(n as nat);
    lemma_digits_only(s);
    assert(s[0] != '+');
    assert((seq!['+'] + s).skip(1) =~= s);
}

proof fn lemma_digits_only(s: Seq<char>)
    requires
        digits_value(s) is Some,
    ensures
        forall|i: int| 0 <= i < s.len() ==> '0' <= #[trigger] s[i] && s[i] <= '9',
    decreases s.len(),
{
    if s.len() > 0 {
        lemma_digits_only(s.drop_last());
        assert forall|i: int| 0 <= i < s.len() implies '0' <= #[trigger] s[i] && s[i] <= '9' by {
            if i < s.len() - 1 {
                assert(s.drop_last()[i] == s[i]);
            }
        }
    }
}

/// What holds a character that is no digit, or nothing but a sign, is no number.
pub proof fn law_u32_refuses(s: Seq<char>, i: int)
    ensures
        s.len() == 0 ==> u32_value(s) is None,
        s == seq!['+'] ==> u32_value(s) is None,
        0 < i < s.len() && !('0' <= s[i] && s[i] <= '9') ==> u32_value(s) is None,
{
    if 0 < i < s.len() && u32_value(s) is Some {
        if s[0] == '+' {
            lemma_digits_only(s.skip(1));
            assert(s.skip(1)[i - 1] == s[i]);
        } else {
            lemma_digits_only(s);
        }
    }
}

/// Texts are ordered by the first character in which they differ; a text stands behind what
/// it starts with.
pub proof fn law_order(a: Seq<char>, b: Seq<char>, k: int)
    requires
        0 <= k <= a.len(),
        k <= b.len(),
        a.take(k) == b.take(k),
    ensures
        k < a.len() && k < b.len() && a[k] < b[k] ==> precedes(a, b) && !precedes(b, a),
        k == a.len() && k < b.len() ==> precedes(a, b) && !precedes(b, a),
        k == a.len() && k == b.len() ==> !precedes(a, b),
    decreases k,
{
    if k > 0 {
        assert(a[0] == a.take(k)[0] && b[0] == b.take(k)[0]);
        assert(a.skip(1).take(k - 1) =~= a.take(k).skip(1));
        assert(b.skip(1).take(k - 1) =~= b.take(k).skip(1));
        law_order(a.skip(1), b.skip(1), k - 1);
    }
}

} // verus!
