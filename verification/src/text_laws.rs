//! What words, lines and numbers are, said of the characters that they are made of.

use vstd::prelude::*;

use crate::number::decimal;
use crate::number::is_numeral;
use crate::number::law_decimal_is_numeral;
use crate::number::numeral_value;
use crate::number::signed_decimal;
use crate::number::signed_value;
use crate::number::unsigned_value;
use crate::number::within;
use crate::report::string_views;
use crate::text::is_white_space;
use crate::text::is_word;
use crate::text::joined;
use crate::text::law_joined_words_split_back;
use crate::text::law_line_feed_ends_a_line;
use crate::text::lemma_word_len;
use crate::text::line_len;
use crate::text::line_views;
use crate::text::lines;
use crate::text::trim;
use crate::text::trim_end;
use crate::text::trim_start;
use crate::text::views;
use crate::text::word_len;
use crate::text::words;

verus! {

// ---------------------------------------------------------------------------
// Words
// ---------------------------------------------------------------------------

/// The words of a text are its runs of characters that are not white space. Each word stands
/// between two bounds, with white space or the end of the text on either side, the words come in
/// the order of the text, and every character that is not white space belongs to one.
pub proof fn law_words_are_the_runs(s: Seq<char>) -> (bounds: Seq<(int, int)>)
    ensures
        bounds.len() == words(s).len(),
        forall|k: int|
            0 <= k < bounds.len() ==> 0 <= (#[trigger] bounds[k]).0 < bounds[k].1 <= s.len()
                && words(s)[k] == s.subrange(bounds[k].0, bounds[k].1),
        forall|k: int|
            0 <= k < bounds.len() && (#[trigger] bounds[k]).0 > 0 ==> is_white_space(
                s[bounds[k].0 - 1],
            ),
        forall|k: int|
            0 <= k < bounds.len() && (#[trigger] bounds[k]).1 < s.len() ==> is_white_space(
                s[bounds[k].1],
            ),
        forall|k: int, i: int|
            0 <= k < bounds.len() && (#[trigger] bounds[k]).0 <= i < bounds[k].1
                ==> !is_white_space(#[trigger] s[i]),
        forall|j: int, k: int|
            0 <= j < k < bounds.len() ==> (#[trigger] bounds[j]).1 < (#[trigger] bounds[k]).0,
        forall|i: int|
            0 <= i < s.len() && !is_white_space(#[trigger] s[i]) ==> exists|k: int|
                0 <= k < bounds.len() && (#[trigger] bounds[k]).0 <= i < bounds[k].1,
    decreases s.len(),
{
    if s.len() == 0 {
        Seq::empty()
    } else if is_white_space(s[0]) {
        let rest = s.drop_first();
        let inner = law_words_are_the_runs(rest);
        let bounds = inner.map_values(|b: (int, int)| (b.0 + 1, b.1 + 1));
        assert forall|k: int| 0 <= k < bounds.len() implies words(s)[k] == s.subrange(
            (#[trigger] bounds[k]).0,
            bounds[k].1,
        ) && 0 <= bounds[k].0 < bounds[k].1 <= s.len() by {
            assert(rest.subrange(inner[k].0, inner[k].1) =~= s.subrange(
                bounds[k].0,
                bounds[k].1,
            ));
        }
        assert forall|k: int| 0 <= k < bounds.len() && (#[trigger] bounds[k]).0 > 0 implies
            is_white_space(s[bounds[k].0 - 1]) by {
            if inner[k].0 > 0 {
                assert(s[bounds[k].0 - 1] == rest[inner[k].0 - 1]);
            }
        }
        assert forall|k: int| 0 <= k < bounds.len() && (#[trigger] bounds[k]).1 < s.len() implies
            is_white_space(s[bounds[k].1]) by {
            assert(s[bounds[k].1] == rest[inner[k].1]);
        }
        assert forall|k: int, i: int|
            0 <= k < bounds.len() && (#[trigger] bounds[k]).0 <= i < bounds[k].1 implies
            !is_white_space(#[trigger] s[i]) by {
            assert(inner[k].0 <= i - 1 < inner[k].1);
            assert(s[i] == rest[i - 1]);
        }
        assert forall|j: int, k: int| 0 <= j < k < bounds.len() implies (#[trigger] bounds[j]).1 < (
        #[trigger] bounds[k]).0 by {
            assert(inner[j].1 < inner[k].0);
        }
        assert forall|i: int| 0 <= i < s.len() && !is_white_space(#[trigger] s[i]) implies exists|
            k: int,
        |
            0 <= k < bounds.len() && (#[trigger] bounds[k]).0 <= i < bounds[k].1 by {
            assert(s[i] == rest[i - 1]);
            let k = choose|k: int|
                0 <= k < inner.len() && (#[trigger] inner[k]).0 <= i - 1 < inner[k].1;
            assert(bounds[k].0 <= i < bounds[k].1);
        }
        bounds
    } else {
        lemma_word_len(s);
        let n = word_len(s) as int;
        let rest = s.skip(n);
        let inner = law_words_are_the_runs(rest);
        let bounds = seq![(0int, n)] + inner.map_values(|b: (int, int)| (b.0 + n, b.1 + n));
        assert forall|k: int| 0 <= k < bounds.len() implies words(s)[k] == s.subrange(
            (#[trigger] bounds[k]).0,
            bounds[k].1,
        ) && 0 <= bounds[k].0 < bounds[k].1 <= s.len() by {
            if k == 0 {
                assert(s.take(n) =~= s.subrange(0, n));
            } else {
                assert(bounds[k] == (inner[k - 1].0 + n, inner[k - 1].1 + n));
                assert(words(s)[k] == words(rest)[k - 1]);
                assert(rest.subrange(inner[k - 1].0, inner[k - 1].1) =~= s.subrange(
                    bounds[k].0,
                    bounds[k].1,
                ));
            }
        }
        // The text behind the first word starts with white space, so no word starts there.
        assert forall|k: int| 0 <= k < inner.len() implies (#[trigger] inner[k]).0 > 0 by {
            if inner[k].0 == 0 {
                assert(!is_white_space(rest[0]));
                assert(rest[0] == s[n]);
            }
        }
        assert forall|k: int| 0 <= k < bounds.len() && (#[trigger] bounds[k]).0 > 0 implies
            is_white_space(s[bounds[k].0 - 1]) by {
            assert(bounds[k].0 - 1 == inner[k - 1].0 - 1 + n);
            assert(s[bounds[k].0 - 1] == rest[inner[k - 1].0 - 1]);
        }
        assert forall|k: int| 0 <= k < bounds.len() && (#[trigger] bounds[k]).1 < s.len() implies
            is_white_space(s[bounds[k].1]) by {
            if k > 0 {
                assert(bounds[k].1 == inner[k - 1].1 + n);
                assert(s[bounds[k].1] == rest[inner[k - 1].1]);
            }
        }
        assert forall|k: int, i: int|
            0 <= k < bounds.len() && (#[trigger] bounds[k]).0 <= i < bounds[k].1 implies
            !is_white_space(#[trigger] s[i]) by {
            if k > 0 {
                assert(inner[k - 1].0 <= i - n < inner[k - 1].1);
                assert(s[i] == rest[i - n]);
            }
        }
        assert forall|j: int, k: int| 0 <= j < k < bounds.len() implies (#[trigger] bounds[j]).1 < (
        #[trigger] bounds[k]).0 by {
            assert(bounds[k].0 == inner[k - 1].0 + n);
            if j > 0 {
                assert(bounds[j].1 == inner[j - 1].1 + n);
                assert(inner[j - 1].1 < inner[k - 1].0);
            }
        }
        assert forall|i: int| 0 <= i < s.len() && !is_white_space(#[trigger] s[i]) implies exists|
            k: int,
        |
            0 <= k < bounds.len() && (#[trigger] bounds[k]).0 <= i < bounds[k].1 by {
            if i < n {
                assert(bounds[0].0 <= i < bounds[0].1);
            } else {
                assert(s[i] == rest[i - n]);
                let k = choose|k: int|
                    0 <= k < inner.len() && (#[trigger] inner[k]).0 <= i - n < inner[k].1;
                assert(bounds[k + 1].0 <= i < bounds[k + 1].1);
            }
        }
        bounds
    }
}

/// A text without white space is one word.
pub proof fn law_word_is_its_own_word(w: Seq<char>)
    requires
        w.len() > 0,
        forall|i: int| 0 <= i < w.len() ==> !is_white_space(#[trigger] w[i]),
    ensures
        words(w) == seq![w],
{
    assert(is_word(w));
    law_joined_words_split_back(seq![w]);
}

/// Joining puts one space between neighbours, and nothing else.
pub proof fn law_joining_puts_single_spaces(list: Seq<Seq<char>>, last: Seq<char>)
    ensures
        joined(Seq::<Seq<char>>::empty()) == Seq::<char>::empty(),
        joined(seq![last]) == last,
        list.len() > 0 ==> joined(list.push(last)) == joined(list) + seq![' '] + last,
{
    assert(list.push(last).drop_last() =~= list);
}

/// Three words that are joined stand with single spaces between them, and can be told apart.
pub proof fn law_three_words_are_joined(a: Seq<char>, b: Seq<char>, c: Seq<char>)
    ensures
        joined(seq![a, b, c]) == a + seq![' '] + b + seq![' '] + c,
        is_word(a) && is_word(b) && is_word(c) ==> words(a + seq![' '] + b + seq![' '] + c) == seq![
            a,
            b,
            c,
        ],
{
    assert(seq![a, b, c].drop_last() =~= seq![a, b]);
    assert(seq![a, b].drop_last() =~= seq![a]);
    assert(joined(seq![a]) == a);
    assert(joined(seq![a, b]) == a + seq![' '] + b);
    if is_word(a) && is_word(b) && is_word(c) {
        law_joined_words_split_back(seq![a, b, c]);
    }
}

/// The texts of a list are those of its members, in order.
pub proof fn law_views_are_in_order(list: Seq<&str>, strings: Seq<String>, rows: Seq<Vec<char>>)
    ensures
        views(list).len() == list.len(),
        forall|i: int| 0 <= i < list.len() ==> #[trigger] views(list)[i] == list[i]@,
        string_views(strings).len() == strings.len(),
        forall|i: int| 0 <= i < strings.len() ==> #[trigger] string_views(strings)[i] == strings[i]@,
        line_views(rows).len() == rows.len(),
        forall|i: int| 0 <= i < rows.len() ==> #[trigger] line_views(rows)[i] == rows[i]@,
{
}

// ---------------------------------------------------------------------------
// Trimming and lines
// ---------------------------------------------------------------------------

/// A trimmed text is the part between two bounds, with white space only outside them, and
/// none at its two ends.
pub proof fn law_trimmed_is_between_white_space(s: Seq<char>) -> (bounds: (int, int))
    ensures
        0 <= bounds.0 <= bounds.1 <= s.len(),
        trim(s) == s.subrange(bounds.0, bounds.1),
        forall|i: int| 0 <= i < bounds.0 ==> is_white_space(#[trigger] s[i]),
        forall|i: int| bounds.1 <= i < s.len() ==> is_white_space(#[trigger] s[i]),
        bounds.0 < bounds.1 ==> !is_white_space(s[bounds.0]) && !is_white_space(s[bounds.1 - 1]),
{
    let a = lemma_trim_start(s);
    let front = s.skip(a);
    let b = lemma_trim_end(front);
    assert(trim(s) == front.take(b));
    assert(front.take(b) =~= s.subrange(a, a + b));
    assert forall|i: int| a + b <= i < s.len() implies is_white_space(#[trigger] s[i]) by {
        assert(s[i] == front[i - a]);
    }
    if b > 0 {
        assert(front[0] == s[a]);
        assert(front[b - 1] == s[a + b - 1]);
    }
    (a, a + b)
}

proof fn lemma_trim_start(s: Seq<char>) -> (n: int)
    ensures
        0 <= n <= s.len(),
        trim_start(s) == s.skip(n),
        forall|i: int| 0 <= i < n ==> is_white_space(#[trigger] s[i]),
        n < s.len() ==> !is_white_space(s[n]),
    decreases s.len(),
{
    if s.len() > 0 && is_white_space(s[0]) {
        let rest = s.drop_first();
        let n = lemma_trim_start(rest);
        assert(rest.skip(n) =~= s.skip(n + 1));
        assert forall|i: int| 0 <= i < n + 1 implies is_white_space(#[trigger] s[i]) by {
            if i > 0 {
                assert(s[i] == rest[i - 1]);
            }
        }
        if n < rest.len() {
            assert(s[n + 1] == rest[n]);
        }
        n + 1
    } else {
        assert(s.skip(0) =~= s);
        0
    }
}

proof fn lemma_trim_end(s: Seq<char>) -> (n: int)
    ensures
        0 <= n <= s.len(),
        trim_end(s) == s.take(n),
        forall|i: int| n <= i < s.len() ==> is_white_space(#[trigger] s[i]),
        n > 0 ==> !is_white_space(s[n - 1]),
    decreases s.len(),
{
    if s.len() > 0 && is_white_space(s.last()) {
        let rest = s.drop_last();
        let n = lemma_trim_end(rest);
        assert(rest.take(n) =~= s.take(n));
        assert forall|i: int| n <= i < s.len() implies is_white_space(#[trigger] s[i]) by {
            if i < rest.len() {
                assert(s[i] == rest[i]);
            }
        }
        n
    } else {
        assert(s.take(s.len() as int) =~= s);
        s.len() as int
    }
}

/// Lines end with a line feed, or with a carriage return and a line feed; a text without a line
/// feed is one line, and the empty text has none.
pub proof fn law_lines_end_with_line_feeds(line: Seq<char>, rest: Seq<char>)
    requires
        forall|i: int| 0 <= i < line.len() ==> #[trigger] line[i] != '\n',
    ensures
        lines(Seq::<char>::empty()) == Seq::<Seq<char>>::empty(),
        line.len() > 0 ==> lines(line) == seq![line],
        line.len() == 0 || line.last() != '\r' ==> lines(line + seq!['\n'] + rest) == seq![line]
            + lines(rest),
        lines(line + seq!['\r', '\n'] + rest) == seq![line] + lines(rest),
{
    if line.len() > 0 {
        lemma_line_len_without_feed(line);
    }
    law_line_feed_ends_a_line(line, rest);
    let more = line.push('\r');
    law_line_feed_ends_a_line(more, rest);
    assert(more.drop_last() =~= line);
    assert(line + seq!['\r', '\n'] + rest =~= more + seq!['\n'] + rest);
}

proof fn lemma_line_len_without_feed(s: Seq<char>)
    requires
        forall|i: int| 0 <= i < s.len() ==> #[trigger] s[i] != '\n',
    ensures
        line_len(s) == s.len(),
    decreases s.len(),
{
    if s.len() > 0 {
        assert(s[0] != '\n');
        let rest = s.drop_first();
        assert forall|i: int| 0 <= i < rest.len() implies #[trigger] rest[i] != '\n' by {
            assert(rest[i] == s[i + 1]);
        }
        lemma_line_len_without_feed(rest);
    }
}

// ---------------------------------------------------------------------------
// Numbers
// ---------------------------------------------------------------------------

/// A numeral is made of the digits from `0` to `9`, at least one, and each digit behind it makes
/// it ten times as large and adds its own value.
pub proof fn law_numerals_count_in_tens(s: Seq<char>, c: char)
    ensures
        is_numeral(s) <==> s.len() > 0 && forall|i: int|
            0 <= i < s.len() ==> '0' <= #[trigger] s[i] <= '9',
        numeral_value(Seq::<char>::empty()) == 0,
        numeral_value(s.push(c)) == 10 * numeral_value(s) + (c as int - '0' as int),
{
    assert(s.push(c).drop_last() =~= s);
    if is_numeral(s) {
        assert forall|i: int| 0 <= i < s.len() implies '0' <= #[trigger] s[i] <= '9' by {
            assert(crate::number::is_digit(s[i]));
        }
    }
    if s.len() > 0 && forall|i: int| 0 <= i < s.len() ==> '0' <= #[trigger] s[i] <= '9' {
        assert forall|i: int| 0 <= i < s.len() implies crate::number::is_digit(
            #[trigger] s[i],
        ) by {
            assert('0' <= s[i] <= '9');
        }
    }
}

/// A number is a numeral, which may stand behind a plus sign and, where signs are allowed, behind
/// a minus sign, which makes it negative. Nothing else is a number.
pub proof fn law_numbers_are_numerals_with_a_sign(s: Seq<char>)
    ensures
        is_numeral(s) ==> unsigned_value(s) == Some(numeral_value(s)) && signed_value(s) == Some(
            numeral_value(s),
        ),
        is_numeral(s) ==> unsigned_value(seq!['+'] + s) == Some(numeral_value(s)) && signed_value(
            seq!['+'] + s,
        ) == Some(numeral_value(s)),
        is_numeral(s) ==> signed_value(seq!['-'] + s) == Some(-numeral_value(s)),
        unsigned_value(s) is Some ==> is_numeral(s) || (s.len() > 0 && s[0] == '+' && is_numeral(
            s.drop_first(),
        )),
        signed_value(s) is Some ==> is_numeral(s) || (s.len() > 0 && (s[0] == '+' || s[0] == '-')
            && is_numeral(s.drop_first())),
{
    if is_numeral(s) {
        assert(crate::number::is_digit(s[0]));
        assert((seq!['+'] + s).drop_first() =~= s);
        assert((seq!['-'] + s).drop_first() =~= s);
    }
}

/// Only a number between two bounds counts as one within them.
pub proof fn law_within_keeps_to_its_bounds(value: Option<int>, low: int, high: int, n: int)
    ensures
        within(value, low, high) == Some(n) <==> value == Some(n) && low <= n <= high,
{
}

/// Decimal notation writes the last digit of a number behind the notation of the others, without
/// a zero in front of a number of several digits; a minus sign stands in front of the notation
/// of a negative number.
pub proof fn law_decimal_writes_the_last_digit_last(n: nat, d: char)
    requires
        '0' <= d <= '9',
    ensures
        decimal((d as int - '0' as int) as nat) == seq![d],
        n > 0 ==> decimal((10 * n + (d as int - '0' as int)) as nat) == decimal(n).push(d),
        numeral_value(decimal(n)) == n,
        is_numeral(decimal(n)),
        n > 0 ==> decimal(n)[0] != '0',
        signed_decimal(n as int) == decimal(n),
        n > 0 ==> signed_decimal(-(n as int)) == seq!['-'] + decimal(n),
{
    law_decimal_is_numeral(n);
    lemma_no_leading_zero(n);
    let v = d as int - '0' as int;
    assert(crate::number::digit_of(v) == d);
    if n > 0 {
        let m = (10 * n + v) as nat;
        assert(m / 10 == n && m % 10 == v);
    }
}

proof fn lemma_no_leading_zero(n: nat)
    ensures
        n > 0 ==> decimal(n)[0] != '0',
    decreases n,
{
    if n >= 10 {
        lemma_no_leading_zero(n / 10);
        law_decimal_is_numeral(n / 10);
        assert(decimal(n)[0] == decimal(n / 10)[0]);
    }
}

/// White space is the tabulator and the characters up to the carriage return, the space, the next
/// line, the spaces that do not break and those of fixed widths, and the separators of lines and
/// paragraphs, by their code points; nothing else is, no letter, no digit and no mark that a line
/// is made of.
pub proof fn law_white_space_is_these_characters(c: char)
    ensures
        is_white_space(c) <==> {
            let n = c as int;
            ||| n == 9 || n == 10 || n == 11 || n == 12 || n == 13
            ||| n == 32 || n == 133 || n == 160 || n == 5760
            ||| 8192 <= n <= 8202
            ||| n == 8232 || n == 8233 || n == 8239 || n == 8287 || n == 12288
        },
        is_white_space(' ') && is_white_space('\t') && is_white_space('\n') && is_white_space('\r'),
        'a' <= c <= 'z' || 'A' <= c <= 'Z' || '0' <= c <= '9' ==> !is_white_space(c),
        '!' <= c <= '~' ==> !is_white_space(c),
{
}

} // verus!
