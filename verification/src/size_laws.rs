//! Which line of a text gives the board size, and which size it gives, said of its characters.

use vstd::prelude::*;

use crate::number::decimal;
use crate::number::is_numeral;
use crate::number::numeral_value;
use crate::size_tag::digits_in;
use crate::size_tag::first_size_tag;
use crate::size_tag::is_size_tag;
use crate::size_tag::size_value;
use crate::size_tag::ApiError;
use crate::text::is_white_space;
use crate::text::law_line_feed_ends_a_line;
use crate::text::law_trailing_white_space_is_trimmed;
use crate::text::lines;
use crate::text::trim;
use crate::text::without_return;
use crate::text_laws::law_lines_end_with_line_feeds;
use crate::text_laws::law_numerals_count_in_tens;
use crate::text_laws::law_trimmed_is_between_white_space;

verus! {

/// Of a line that starts with white space, trimming leaves what starts behind it.
proof fn lemma_trim_behind_white_space(lead: Seq<char>, body: Seq<char>) -> (n: int)
    requires
        forall|i: int| 0 <= i < lead.len() ==> is_white_space(#[trigger] lead[i]),
        body.len() > 0 ==> !is_white_space(body[0]),
    ensures
        0 <= n <= body.len(),
        trim(lead + body) == body.take(n),
        forall|i: int| n <= i < body.len() ==> is_white_space(#[trigger] body[i]),
{
    let s = lead + body;
    let (a, b) = law_trimmed_is_between_white_space(s);
    if a == b {
        // Nothing is left, so there was nothing but white space.
        if body.len() > 0 {
            let k = lead.len() as int;
            assert(s[k] == body[0]);
            assert(is_white_space(s[k]));
        }
        assert(trim(s) =~= body.take(0));
        0
    } else {
        if a < lead.len() {
            assert(s[a] == lead[a]);
        }
        if a > lead.len() {
            assert(s[lead.len() as int] == body[0]);
        }
        let n = b - lead.len();
        assert(s.subrange(a, b) =~= body.take(n));
        assert forall|i: int| n <= i < body.len() implies is_white_space(#[trigger] body[i]) by {
            assert(s[i + lead.len()] == body[i]);
        }
        n
    }
}

/// Whether a line counts does not depend on a carriage return at its end.
proof fn lemma_return_does_not_matter(line: Seq<char>)
    ensures
        trim(without_return(line)) == trim(line),
{
    if line.len() > 0 && line.last() == '\r' {
        law_trailing_white_space_is_trimmed(line.drop_last(), '\r');
        assert(line.drop_last().push('\r') =~= line);
    }
}

/// A line counts for the board size only if it begins, behind white space, with an opening bracket
/// and the letters of `size`, each in either case. Any other line makes no difference to what
/// follows it, and alone it gives no size.
pub proof fn law_only_size_lines_count(lead: Seq<char>, body: Seq<char>, rest: Seq<char>)
    requires
        forall|i: int| 0 <= i < lead.len() ==> is_white_space(#[trigger] lead[i]) && lead[i] != '\n',
        forall|i: int| 0 <= i < body.len() ==> #[trigger] body[i] != '\n',
        body.len() > 0 ==> !is_white_space(body[0]),
        body.len() < 5 || body[0] != '[' || (body[1] != 's' && body[1] != 'S') || (body[2] != 'i'
            && body[2] != 'I') || (body[3] != 'z' && body[3] != 'Z') || (body[4] != 'e' && body[4]
            != 'E'),
    ensures
        size_value(lead + body + seq!['\n'] + rest) == size_value(rest),
        size_value(lead + body) == Err::<usize, ApiError>(ApiError::MissingSizeTag),
{
    let line = lead + body;
    let n = lemma_trim_behind_white_space(lead, body);
    let tag = body.take(n);
    if is_size_tag(line) {
        assert(tag[0] == body[0] && tag[1] == body[1] && tag[2] == body[2]);
        assert(tag[3] == body[3] && tag[4] == body[4]);
        assert(false);
    }
    assert forall|i: int| 0 <= i < line.len() implies #[trigger] line[i] != '\n' by {
        if i < lead.len() {
            assert(line[i] == lead[i]);
        } else {
            assert(line[i] == body[i - lead.len()]);
        }
    }
    law_line_feed_ends_a_line(line, rest);
    law_lines_end_with_line_feeds(line, rest);
    lemma_return_does_not_matter(line);
    let first = without_return(line);
    assert(!is_size_tag(first));
    let list = seq![first] + lines(rest);
    assert(list[0] == first);
    assert(list.drop_first() =~= lines(rest));
    if line.len() > 0 {
        assert(lines(line)[0] == line);
        assert(lines(line).drop_first() =~= Seq::empty());
        assert(first_size_tag(lines(line).drop_first()) is None);
    } else {
        assert(line =~= Seq::empty());
    }
}

/// The first line that counts gives the size: all its digits, in order, read as one number. If
/// there is none, or if it is too large, the text is refused, whatever follows.
pub proof fn law_first_size_line_decides(lead: Seq<char>, body: Seq<char>, rest: Seq<char>)
    requires
        forall|i: int| 0 <= i < lead.len() ==> is_white_space(#[trigger] lead[i]) && lead[i] != '\n',
        forall|i: int| 0 <= i < body.len() ==> #[trigger] body[i] != '\n',
        body.len() >= 5,
        body[0] == '[',
        body[1] == 's' || body[1] == 'S',
        body[2] == 'i' || body[2] == 'I',
        body[3] == 'z' || body[3] == 'Z',
        body[4] == 'e' || body[4] == 'E',
    ensures
        ({
            let digits = body.filter(|c: char| '0' <= c <= '9');
            let size = if digits.len() > 0 && numeral_value(digits) <= usize::MAX {
                Ok::<usize, ApiError>(numeral_value(digits) as usize)
            } else {
                Err::<usize, ApiError>(ApiError::InvalidSizeTag)
            };
            size_value(lead + body + seq!['\n'] + rest) == size && size_value(lead + body) == size
        }),
{
    let line = lead + body;
    let n = lemma_trim_behind_white_space(lead, body);
    let tag = body.take(n);
    if n < 5 {
        assert(is_white_space(body[4]));
    }
    assert(tag[0] == body[0] && tag[1] == body[1] && tag[2] == body[2]);
    assert(tag[3] == body[3] && tag[4] == body[4]);
    assert(is_size_tag(line));
    assert forall|i: int| 0 <= i < line.len() implies #[trigger] line[i] != '\n' by {
        if i < lead.len() {
            assert(line[i] == lead[i]);
        } else {
            assert(line[i] == body[i - lead.len()]);
        }
    }
    law_line_feed_ends_a_line(line, rest);
    law_lines_end_with_line_feeds(line, rest);
    lemma_return_does_not_matter(line);
    let first = without_return(line);
    let list = seq![first] + lines(rest);
    assert(list[0] == first);
    assert(lines(line)[0] == line);
    // The white space at the end of the line holds no digit.
    let is_dec = |c: char| '0' <= c <= '9';
    let tail = body.skip(n);
    assert(tag + tail =~= body);
    Seq::filter_distributes_over_add(tag, tail, is_dec);
    assert forall|i: int| 0 <= i < tail.len() implies !is_dec(#[trigger] tail[i]) by {
        assert(tail[i] == body[n + i]);
        assert(is_white_space(body[n + i]));
    }
    lemma_nothing_kept(tail, is_dec);
    assert(tag.filter(is_dec) + tail.filter(is_dec) =~= tag.filter(is_dec));
    lemma_digits_are_filtered(tag);
    let digits = body.filter(is_dec);
    assert(digits_in(tag) == digits);
    law_numerals_count_in_tens(digits, '0');
    assert forall|i: int| 0 <= i < digits.len() implies '0' <= #[trigger] digits[i] <= '9' by {
        body.lemma_filter_pred(is_dec, i);
    }
    assert(is_numeral(digits) <==> digits.len() > 0);
}

proof fn lemma_nothing_kept(s: Seq<char>, keep: spec_fn(char) -> bool)
    requires
        forall|i: int| 0 <= i < s.len() ==> !keep(#[trigger] s[i]),
    ensures
        s.filter(keep) == Seq::<char>::empty(),
    decreases s.len(),
{
    reveal(Seq::filter);
    if s.len() > 0 {
        assert(!keep(s[s.len() - 1]));
        let front = s.drop_last();
        assert forall|i: int| 0 <= i < front.len() implies !keep(#[trigger] front[i]) by {
            assert(front[i] == s[i]);
        }
        lemma_nothing_kept(front, keep);
    } else {
        assert(s =~= Seq::empty());
    }
}

/// The digits of a text are its characters from `0` to `9`, in order.
proof fn lemma_digits_are_filtered(s: Seq<char>)
    ensures
        digits_in(s) == s.filter(|c: char| '0' <= c <= '9'),
    decreases s.len(),
{
    reveal(Seq::filter);
    if s.len() > 0 {
        lemma_digits_are_filtered(s.drop_last());
    } else {
        assert(s =~= Seq::empty());
    }
}

/// What is reported of a refusal: the size that is not supported, in decimal notation, what is
/// wrong with the tag, or the reason that was given.
pub proof fn law_refusals_are_reported_in_words(size: usize, reason: String)
    ensures
        ApiError::UnsupportedSize(size).text() == "Unsupported board size: "@ + decimal(
            size as nat,
        ),
        ApiError::InvalidSizeTag.text() == "Invalid value in Size tag"@,
        ApiError::MissingSizeTag.text() == "PTN is missing a Size tag"@,
        ApiError::Refused(reason).text() == reason@,
{
}

} // verus!
