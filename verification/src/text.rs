//! Text as sequences of characters: white space, words and lines.

use vstd::prelude::*;
use vstd::slice::slice_subrange;
use vstd::slice::slice_to_vec;
use vstd::string::*;

verus! {

/// The Unicode `White_Space` property.
pub open spec fn is_white_space(c: char) -> bool {
    ||| '\u{9}' <= c <= '\u{d}'
    ||| c == '\u{20}'
    ||| c == '\u{85}'
    ||| c == '\u{a0}'
    ||| c == '\u{1680}'
    ||| '\u{2000}' <= c <= '\u{200a}'
    ||| '\u{2028}' <= c <= '\u{2029}'
    ||| c == '\u{202f}'
    ||| c == '\u{205f}'
    ||| c == '\u{3000}'
}

/// Whether `c` is white space.
pub fn white_space(c: char) -> (yes: bool)
    ensures
        yes == is_white_space(c),
{
    ('\u{9}' <= c && c <= '\u{d}') || c == '\u{20}' || c == '\u{85}' || c == '\u{a0}' || c
        == '\u{1680}' || ('\u{2000}' <= c && c <= '\u{200a}') || ('\u{2028}' <= c && c
        <= '\u{2029}') || c == '\u{202f}' || c == '\u{205f}' || c == '\u{3000}'
}

/// The characters of `s`.
pub fn chars_of(s: &str) -> (chars: Vec<char>)
    ensures
        chars@ == s@,
{
    let mut out: Vec<char> = Vec::new();
    for c in it: s.chars()
        invariant
            out@ == s@.take(it.index()),
            it.seq() == s@,
    {
        out.push(c);
        assert(s@.take(it.index() + 1) =~= s@.take(it.index()).push(c));
    }
    assert(s@.take(s@.len() as int) =~= s@);
    out
}

/// Whether two texts are the same.
pub fn same_text(a: &str, b: &str) -> (same: bool)
    ensures
        same == (a@ == b@),
{
    a.to_owned() == b.to_owned()
}

// ---------------------------------------------------------------------------
// Words
// ---------------------------------------------------------------------------

/// How many characters of `s` come before its first white space.
pub open spec fn word_len(s: Seq<char>) -> nat
    decreases s.len(),
{
    if s.len() == 0 || is_white_space(s[0]) {
        0
    } else {
        1 + word_len(s.drop_first())
    }
}

/// The words of `s`: its longest runs of characters that are not white space, in order.
pub open spec fn words(s: Seq<char>) -> Seq<Seq<char>>
    decreases s.len(),
{
    if s.len() == 0 {
        Seq::empty()
    } else if is_white_space(s[0]) {
        words(s.drop_first())
    } else {
        proof {
            lemma_word_len(s);
        }
        seq![s.take(word_len(s) as int)] + words(s.skip(word_len(s) as int))
    }
}

/// Whether `w` can be a word: not empty, and without white space.
pub open spec fn is_word(w: Seq<char>) -> bool {
    &&& w.len() > 0
    &&& forall|i: int| 0 <= i < w.len() ==> !is_white_space(#[trigger] w[i])
}

/// The texts that a list of string slices holds.
pub open spec fn views(list: Seq<&str>) -> Seq<Seq<char>> {
    list.map_values(|w: &str| w@)
}

/// The characters before the word length are free of white space, and the one at it is not.
pub proof fn lemma_word_len(s: Seq<char>)
    ensures
        word_len(s) <= s.len(),
        forall|i: int| 0 <= i < word_len(s) ==> !is_white_space(#[trigger] s[i]),
        word_len(s) < s.len() ==> is_white_space(s[word_len(s) as int]),
        s.len() > 0 && !is_white_space(s[0]) ==> word_len(s) > 0,
    decreases s.len(),
{
    if s.len() > 0 && !is_white_space(s[0]) {
        let rest = s.drop_first();
        lemma_word_len(rest);
        assert forall|i: int| 0 <= i < word_len(s) implies !is_white_space(#[trigger] s[i]) by {
            if i > 0 {
                assert(s[i] == rest[i - 1]);
            }
        }
        if word_len(s) < s.len() {
            assert(s[word_len(s) as int] == rest[word_len(rest) as int]);
        }
    }
}

/// The word length is the only split point with a clean front and white space, or nothing, behind it.
proof fn lemma_word_len_is(s: Seq<char>, n: nat)
    requires
        n <= s.len(),
        forall|i: int| 0 <= i < n ==> !is_white_space(#[trigger] s[i]),
        n < s.len() ==> is_white_space(s[n as int]),
    ensures
        word_len(s) == n,
{
    lemma_word_len(s);
    if word_len(s) < n {
        assert(!is_white_space(s[word_len(s) as int]));
    }
    if n < word_len(s) {
        assert(!is_white_space(s[n as int]));
    }
}

/// Splits `line` into its words.
pub fn split_words<'a>(line: &'a str) -> (list: Vec<&'a str>)
    ensures
        views(list@) == words(line@),
{
    let chars = chars_of(line);
    let mut out: Vec<&'a str> = Vec::new();
    let mut i: usize = 0;
    assert(line@.skip(0) =~= line@);
    assert(views(out@) + words(line@.skip(0)) =~= words(line@));
    while i < chars.len()
        invariant
            chars@ == line@,
            i <= line@.len(),
            views(out@) + words(line@.skip(i as int)) == words(line@),
        decreases chars.len() - i,
    {
        let ghost rest = line@.skip(i as int);
        assert(rest[0] == line@[i as int]);
        if white_space(chars[i]) {
            assert(rest.drop_first() =~= line@.skip(i + 1));
            i = i + 1;
        } else {
            let mut j: usize = i + 1;
            while j < chars.len() && !white_space(chars[j])
                invariant
                    chars@ == line@,
                    i < j <= line@.len(),
                    forall|k: int| i <= k < j ==> !is_white_space(#[trigger] line@[k]),
                decreases chars.len() - j,
            {
                j = j + 1;
            }
            let word = line.substring_char(i, j);
            proof {
                assert forall|k: int| 0 <= k < j - i implies !is_white_space(#[trigger] rest[k]) by {
                    assert(rest[k] == line@[i + k]);
                }
                lemma_word_len_is(rest, (j - i) as nat);
                assert(rest.take(j - i) =~= line@.subrange(i as int, j as int));
                assert(rest.skip(j - i) =~= line@.skip(j as int));
                assert(views(out@.push(word)) =~= views(out@).push(word@));
                assert(views(out@.push(word)) + words(line@.skip(j as int)) =~= views(out@) + (seq![
                    word@,
                ] + words(line@.skip(j as int))));
            }
            out.push(word);
            i = j;
        }
    }
    assert(words(line@.skip(i as int)) =~= Seq::empty());
    assert(views(out@) =~= words(line@));
    out
}

/// Every word of a text is a word: not empty, and free of white space.
pub proof fn law_words_are_words(s: Seq<char>)
    ensures
        forall|i: int| 0 <= i < words(s).len() ==> is_word(#[trigger] words(s)[i]),
    decreases s.len(),
{
    if s.len() > 0 {
        if is_white_space(s[0]) {
            law_words_are_words(s.drop_first());
            assert(words(s) == words(s.drop_first()));
        } else {
            lemma_word_len(s);
            let n = word_len(s) as int;
            let rest = s.skip(n);
            law_words_are_words(rest);
            assert forall|i: int| 0 <= i < words(s).len() implies is_word(#[trigger] words(s)[i]) by {
                if i == 0 {
                    assert(words(s)[0] == s.take(n));
                    assert forall|k: int| 0 <= k < s.take(n).len() implies !is_white_space(
                        #[trigger] s.take(n)[k],
                    ) by {
                        assert(s.take(n)[k] == s[k]);
                    }
                } else {
                    assert(words(s)[i] == words(rest)[i - 1]);
                }
            }
        }
    }
}

/// White space between two texts keeps their words apart: the words of the whole are
/// the words of the first text followed by the words of the second.
pub proof fn law_words_across_white_space(a: Seq<char>, c: char, b: Seq<char>)
    requires
        is_white_space(c),
    ensures
        words(a + seq![c] + b) == words(a) + words(b),
    decreases a.len(),
{
    let s = a + seq![c] + b;
    if a.len() == 0 {
        assert(s[0] == c);
        assert(s.drop_first() =~= b);
        assert(words(a) + words(b) =~= words(b));
    } else if is_white_space(a[0]) {
        assert(s[0] == a[0]);
        assert(s.drop_first() =~= a.drop_first() + seq![c] + b);
        law_words_across_white_space(a.drop_first(), c, b);
    } else {
        assert(s[0] == a[0]);
        lemma_word_len(a);
        let n = word_len(a) as int;
        assert forall|i: int| 0 <= i < n implies !is_white_space(#[trigger] s[i]) by {
            assert(s[i] == a[i]);
        }
        if n < a.len() {
            assert(s[n] == a[n]);
        } else {
            assert(s[n] == c);
        }
        lemma_word_len_is(s, n as nat);
        assert(s.take(n) =~= a.take(n));
        assert(s.skip(n) =~= a.skip(n) + seq![c] + b);
        law_words_across_white_space(a.skip(n), c, b);
        assert(words(s) =~= words(a) + words(b));
    }
}

// ---------------------------------------------------------------------------
// Joining
// ---------------------------------------------------------------------------

/// The texts of `list`, one after the other, with a single space between neighbours.
pub open spec fn joined(list: Seq<Seq<char>>) -> Seq<char>
    decreases list.len(),
{
    if list.len() == 0 {
        Seq::empty()
    } else if list.len() == 1 {
        list[0]
    } else {
        joined(list.drop_last()) + seq![' '] + list.last()
    }
}

/// Joins `list` with single spaces.
pub fn join_words(list: &[&str]) -> (text: String)
    ensures
        text@ == joined(views(list@)),
{
    let mut out = String::new();
    let mut i: usize = 0;
    let ghost all = views(list@);
    assert(all.take(0) =~= Seq::empty());
    while i < list.len()
        invariant
            all == views(list@),
            i <= list@.len(),
            out@ == joined(all.take(i as int)),
        decreases list.len() - i,
    {
        proof {
            reveal_strlit(" ");
            assert(" "@ =~= seq![' ']);
            assert(all.take(i + 1).drop_last() =~= all.take(i as int));
            assert(all.take(i + 1).last() == list@[i as int]@);
        }
        if i > 0 {
            out.append(" ");
        } else {
            assert(Seq::<char>::empty() + list@[0]@ =~= list@[0]@);
        }
        out.append(list[i]);
        i = i + 1;
    }
    assert(all.take(list@.len() as int) =~= all);
    out
}

/// Joining words and splitting the result gives the same words back.
pub proof fn law_joined_words_split_back(list: Seq<Seq<char>>)
    requires
        forall|i: int| 0 <= i < list.len() ==> is_word(#[trigger] list[i]),
    ensures
        words(joined(list)) == list,
    decreases list.len(),
{
    if list.len() == 0 {
        assert(list =~= Seq::empty());
    } else {
        let last = list.last();
        assert(is_word(list[list.len() - 1]));
        assert(!is_white_space(last[0]));
        lemma_word_len_is(last, last.len());
        assert(last.take(last.len() as int) =~= last);
        assert(last.skip(last.len() as int) =~= Seq::empty());
        assert(words(last.skip(last.len() as int)) =~= Seq::empty());
        assert(words(last) =~= seq![last]);
        if list.len() == 1 {
            assert(list =~= seq![last]);
        } else {
            let front = list.drop_last();
            assert forall|i: int| 0 <= i < front.len() implies is_word(#[trigger] front[i]) by {
                assert(front[i] == list[i]);
            }
            law_joined_words_split_back(front);
            law_words_across_white_space(joined(front), ' ', last);
            assert(front + seq![last] =~= list);
        }
    }
}

// ---------------------------------------------------------------------------
// Trimming
// ---------------------------------------------------------------------------

/// `s` without the white space at its front.
pub open spec fn trim_start(s: Seq<char>) -> Seq<char>
    decreases s.len(),
{
    if s.len() > 0 && is_white_space(s[0]) {
        trim_start(s.drop_first())
    } else {
        s
    }
}

/// `s` without the white space at its back.
pub open spec fn trim_end(s: Seq<char>) -> Seq<char>
    decreases s.len(),
{
    if s.len() > 0 && is_white_space(s.last()) {
        trim_end(s.drop_last())
    } else {
        s
    }
}

/// `s` without the white space at its two ends.
pub open spec fn trim(s: Seq<char>) -> Seq<char> {
    trim_end(trim_start(s))
}

/// Drops the white space at the two ends of `chars`.
pub fn trimmed(chars: &[char]) -> (out: &[char])
    ensures
        out@ == trim(chars@),
{
    let mut i: usize = 0;
    assert(chars@.skip(0) =~= chars@);
    while i < chars.len() && white_space(chars[i])
        invariant
            i <= chars@.len(),
            trim_start(chars@.skip(i as int)) == trim_start(chars@),
        decreases chars.len() - i,
    {
        assert(chars@.skip(i as int).drop_first() =~= chars@.skip(i + 1));
        i = i + 1;
    }
    let ghost front = chars@.skip(i as int);
    assert(trim_start(chars@) == front);
    let mut j: usize = chars.len();
    assert(chars@.subrange(i as int, j as int) =~= front);
    while j > i && white_space(chars[j - 1])
        invariant
            i <= j <= chars@.len(),
            trim_end(chars@.subrange(i as int, j as int)) == trim_end(front),
        decreases j - i,
    {
        assert(chars@.subrange(i as int, j as int).drop_last() =~= chars@.subrange(
            i as int,
            j - 1,
        ));
        j = j - 1;
    }
    slice_subrange(chars, i, j)
}

// ---------------------------------------------------------------------------
// Lines
// ---------------------------------------------------------------------------

/// How many characters of `s` come before its first line feed.
pub open spec fn line_len(s: Seq<char>) -> nat
    decreases s.len(),
{
    if s.len() == 0 || s[0] == '\n' {
        0
    } else {
        1 + line_len(s.drop_first())
    }
}

/// `s` without the one carriage return that it may end in.
pub open spec fn without_return(s: Seq<char>) -> Seq<char> {
    if s.len() > 0 && s.last() == '\r' {
        s.drop_last()
    } else {
        s
    }
}

/// The lines of `s`. A line feed ends a line, together with a carriage return right
/// before it; what follows the last line feed is a line unless it is empty.
pub open spec fn lines(s: Seq<char>) -> Seq<Seq<char>>
    decreases s.len(),
{
    if s.len() == 0 {
        Seq::empty()
    } else if line_len(s) >= s.len() {
        seq![s]
    } else {
        seq![without_return(s.take(line_len(s) as int))] + lines(s.skip(line_len(s) as int + 1))
    }
}

proof fn lemma_line_len_is(s: Seq<char>, n: nat)
    requires
        n <= s.len(),
        forall|i: int| 0 <= i < n ==> #[trigger] s[i] != '\n',
        n < s.len() ==> s[n as int] == '\n',
    ensures
        line_len(s) == n,
    decreases n,
{
    if n > 0 {
        assert(s[0] != '\n');
        let rest = s.drop_first();
        assert forall|i: int| 0 <= i < n - 1 implies #[trigger] rest[i] != '\n' by {
            assert(rest[i] == s[i + 1]);
        }
        lemma_line_len_is(rest, (n - 1) as nat);
    }
}

/// The characters that each of a list of lines holds.
pub open spec fn line_views(list: Seq<Vec<char>>) -> Seq<Seq<char>> {
    list.map_values(|l: Vec<char>| l@)
}

/// Splits `text` into its lines.
pub fn split_lines(text: &str) -> (list: Vec<Vec<char>>)
    ensures
        line_views(list@) == lines(text@),
{
    let chars = chars_of(text);
    let mut out: Vec<Vec<char>> = Vec::new();
    let mut i: usize = 0;
    assert(text@.skip(0) =~= text@);
    assert(line_views(out@) + lines(text@.skip(0)) =~= lines(text@));
    while i < chars.len()
        invariant
            chars@ == text@,
            i <= text@.len(),
            line_views(out@) + lines(text@.skip(i as int)) == lines(text@),
        decreases chars.len() - i,
    {
        let ghost rest = text@.skip(i as int);
        let ghost before = line_views(out@);
        let mut j: usize = i;
        while j < chars.len() && chars[j] != '\n'
            invariant
                chars@ == text@,
                i <= j <= text@.len(),
                forall|k: int| i <= k < j ==> #[trigger] text@[k] != '\n',
            decreases chars.len() - j,
        {
            j = j + 1;
        }
        proof {
            assert forall|k: int| 0 <= k < j - i implies #[trigger] rest[k] != '\n' by {
                assert(rest[k] == text@[i + k]);
            }
            lemma_line_len_is(rest, (j - i) as nat);
            assert(rest.take(j - i) =~= text@.subrange(i as int, j as int));
        }
        let mut end: usize = j;
        if j < chars.len() && j > i && chars[j - 1] == '\r' {
            end = j - 1;
            assert(rest.take(j - i).drop_last() =~= text@.subrange(i as int, end as int));
        }
        let line = slice_to_vec(slice_subrange(chars.as_slice(), i, end));
        proof {
            if j < text@.len() {
                assert(line@ == without_return(rest.take(j - i)));
                assert(rest.skip(j - i + 1) =~= text@.skip(j + 1));
            } else {
                assert(line@ =~= rest);
            }
            assert(line_views(out@.push(line)) =~= before.push(line@));
        }
        out.push(line);
        if j < chars.len() {
            i = j + 1;
            assert(line_views(out@) + lines(text@.skip(i as int)) =~= before + lines(rest));
        } else {
            i = j;
            assert(text@.skip(i as int) =~= Seq::empty());
            assert(line_views(out@) + lines(text@.skip(i as int)) =~= before + lines(rest));
        }
    }
    assert(text@.skip(i as int) =~= Seq::empty());
    assert(line_views(out@) =~= lines(text@));
    out
}

/// A line feed ends a line: the lines of a text are the line in front of its first line feed,
/// without a carriage return at its end, and the lines of what comes behind.
pub proof fn law_line_feed_ends_a_line(line: Seq<char>, rest: Seq<char>)
    requires
        forall|i: int| 0 <= i < line.len() ==> #[trigger] line[i] != '\n',
    ensures
        lines(line + seq!['\n'] + rest) == seq![without_return(line)] + lines(rest),
{
    let s = line + seq!['\n'] + rest;
    assert forall|i: int| 0 <= i < line.len() implies #[trigger] s[i] != '\n' by {
        assert(s[i] == line[i]);
    }
    lemma_line_len_is(s, line.len());
    assert(s.take(line.len() as int) =~= line);
    assert(s.skip(line.len() as int + 1) =~= rest);
}

/// White space at the end of a text does not matter once the text is trimmed.
pub proof fn law_trailing_white_space_is_trimmed(s: Seq<char>, c: char)
    requires
        is_white_space(c),
    ensures
        trim(s.push(c)) == trim(s),
    decreases s.len(),
{
    let more = s.push(c);
    if s.len() == 0 {
        assert(more[0] == c);
        assert(more.drop_first() =~= s);
    } else if is_white_space(s[0]) {
        assert(more[0] == s[0]);
        assert(more.drop_first() =~= s.drop_first().push(c));
        law_trailing_white_space_is_trimmed(s.drop_first(), c);
    } else {
        assert(more[0] == s[0]);
        assert(more.drop_last() =~= s);
    }
}

} // verus!
