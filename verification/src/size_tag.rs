//! The board size that a PTN text gives in its `Size` tag.

use vstd::prelude::*;
use vstd::string::*;

use crate::number::decimal;
use crate::number::decimal_text;
use crate::number::digit;
use crate::number::is_digit;
use crate::number::is_numeral;
use crate::number::law_decimal_is_numeral;
use crate::number::numeral_value;
use crate::number::read_numeral;
use crate::text::law_line_feed_ends_a_line;
use crate::text::law_trailing_white_space_is_trimmed;
use crate::text::line_views;
use crate::text::lines;
use crate::text::split_lines;
use crate::text::trim;
use crate::text::trim_start;
use crate::text::trimmed;
use crate::text::without_return;

verus! {

/// Why a request was refused.
#[derive(Debug, PartialEq, Eq)]
pub enum ApiError {
    /// Boards of this size are not supported.
    UnsupportedSize(usize),
    /// The `Size` tag gives no number that fits.
    InvalidSizeTag,
    /// The text has no `Size` tag.
    MissingSizeTag,
    /// The engine refused the input, for the reason given.
    Refused(String),
}

impl ApiError {
    /// What is reported of this error.
    pub open spec fn text(self) -> Seq<char> {
        match self {
            ApiError::UnsupportedSize(size) => "Unsupported board size: "@ + decimal(size as nat),
            ApiError::InvalidSizeTag => "Invalid value in Size tag"@,
            ApiError::MissingSizeTag => "PTN is missing a Size tag"@,
            ApiError::Refused(reason) => reason@,
        }
    }

    /// Writes down what is reported of this error.
    pub fn message(&self) -> (message: String)
        ensures
            message@ == self.text(),
    {
        match self {
            ApiError::UnsupportedSize(size) => {
                let number = decimal_text(*size as u128);
                "Unsupported board size: ".to_owned().concat(number.as_str())
            },
            ApiError::InvalidSizeTag => "Invalid value in Size tag".to_owned(),
            ApiError::MissingSizeTag => "PTN is missing a Size tag".to_owned(),
            ApiError::Refused(reason) => reason.clone(),
        }
    }
}

/// Whether `c` is the ASCII letter `lower`, in lower or in upper case.
pub open spec fn is_letter(c: char, lower: char) -> bool {
    c == lower || c as int == lower as int - 32
}

/// Whether `line` is a `Size` tag: behind the white space at its front, an opening
/// bracket and the word `size` in any case.
///
/// Only ASCII letters count. No other character has a lower case in which one of these
/// letters is followed by the next.
pub open spec fn is_size_tag(line: Seq<char>) -> bool {
    let tag = trim(line);
    &&& tag.len() >= 5
    &&& tag[0] == '['
    &&& is_letter(tag[1], 's')
    &&& is_letter(tag[2], 'i')
    &&& is_letter(tag[3], 'z')
    &&& is_letter(tag[4], 'e')
}

/// All the digits of `s`, in order.
pub open spec fn digits_in(s: Seq<char>) -> Seq<char>
    decreases s.len(),
{
    if s.len() == 0 {
        Seq::empty()
    } else if is_digit(s.last()) {
        digits_in(s.drop_last()).push(s.last())
    } else {
        digits_in(s.drop_last())
    }
}

/// The first `Size` tag among the lines `list`.
pub open spec fn first_size_tag(list: Seq<Seq<char>>) -> Option<Seq<char>>
    decreases list.len(),
{
    if list.len() == 0 {
        None
    } else if is_size_tag(list[0]) {
        Some(list[0])
    } else {
        first_size_tag(list.drop_first())
    }
}

/// The size that `ptn` gives: the digits of its first `Size` tag, read as one number.
pub open spec fn size_value(ptn: Seq<char>) -> Result<usize, ApiError> {
    match first_size_tag(lines(ptn)) {
        None => Err(ApiError::MissingSizeTag),
        Some(tag) => {
            let digits = digits_in(trim(tag));
            if is_numeral(digits) && numeral_value(digits) <= usize::MAX {
                Ok(numeral_value(digits) as usize)
            } else {
                Err(ApiError::InvalidSizeTag)
            }
        },
    }
}

fn letter(c: char, lower: char, upper: char) -> (yes: bool)
    requires
        upper as int == lower as int - 32,
    ensures
        yes == is_letter(c, lower),
{
    c == lower || c == upper
}

fn size_tag(tag: &[char]) -> (yes: bool)
    ensures
        yes == (tag@.len() >= 5 && tag@[0] == '[' && is_letter(tag@[1], 's') && is_letter(
            tag@[2],
            'i',
        ) && is_letter(tag@[3], 'z') && is_letter(tag@[4], 'e')),
{
    tag.len() >= 5 && tag[0] == '[' && letter(tag[1], 's', 'S') && letter(tag[2], 'i', 'I')
        && letter(tag[3], 'z', 'Z') && letter(tag[4], 'e', 'E')
}

fn collect_digits(chars: &[char]) -> (digits: Vec<char>)
    ensures
        digits@ == digits_in(chars@),
{
    let mut out: Vec<char> = Vec::new();
    let mut i: usize = 0;
    while i < chars.len()
        invariant
            i <= chars@.len(),
            out@ == digits_in(chars@.take(i as int)),
        decreases chars.len() - i,
    {
        assert(chars@.take(i + 1).drop_last() =~= chars@.take(i as int));
        if digit(chars[i]) {
            out.push(chars[i]);
        }
        i = i + 1;
    }
    assert(chars@.take(i as int) =~= chars@);
    out
}

/// Reads the board size from the first `Size` tag of `ptn`.
pub fn extract_size(ptn: &str) -> (size: Result<usize, ApiError>)
    ensures
        size == size_value(ptn@),
{
    let list = split_lines(ptn);
    let ghost all = lines(ptn@);
    let mut i: usize = 0;
    assert(all.skip(0) =~= all);
    while i < list.len()
        invariant
            line_views(list@) == all,
            all == lines(ptn@),
            i <= list@.len(),
            first_size_tag(all.skip(i as int)) == first_size_tag(all),
        decreases list.len() - i,
    {
        assert(all[i as int] == list@[i as int]@);
        assert(all.skip(i as int)[0] == all[i as int]);
        assert(all.skip(i as int).drop_first() =~= all.skip(i + 1));
        let tag = trimmed(list[i].as_slice());
        if size_tag(tag) {
            let digits = collect_digits(tag);
            return match read_numeral(digits.as_slice(), usize::MAX as u64) {
                Some(n) => Ok(n as usize),
                None => Err(ApiError::InvalidSizeTag),
            };
        }
        i = i + 1;
    }
    Err(ApiError::MissingSizeTag)
}

// ---------------------------------------------------------------------------
// Laws
// ---------------------------------------------------------------------------

/// The digits of a text are those of its front, followed by those of its back.
proof fn lemma_digits_in_parts(a: Seq<char>, b: Seq<char>)
    ensures
        digits_in(a + b) == digits_in(a) + digits_in(b),
    decreases b.len(),
{
    if b.len() == 0 {
        assert(a + b =~= a);
        assert(digits_in(a) + digits_in(b) =~= digits_in(a));
    } else {
        lemma_digits_in_parts(a, b.drop_last());
        assert((a + b).drop_last() =~= a + b.drop_last());
        assert((a + b).last() == b.last());
        assert(digits_in(a + b) =~= digits_in(a) + digits_in(b));
    }
}

/// A text of digits is all the digits that it has.
proof fn lemma_digits_in_digits(s: Seq<char>)
    requires
        forall|i: int| 0 <= i < s.len() ==> is_digit(#[trigger] s[i]),
    ensures
        digits_in(s) == s,
    decreases s.len(),
{
    if s.len() == 0 {
        assert(s =~= Seq::empty());
    } else {
        let front = s.drop_last();
        assert forall|i: int| 0 <= i < front.len() implies is_digit(#[trigger] front[i]) by {
            assert(front[i] == s[i]);
        }
        assert(is_digit(s[s.len() - 1]));
        lemma_digits_in_digits(front);
        assert(front.push(s.last()) =~= s);
    }
}

/// A text without digits has none.
proof fn lemma_no_digits(s: Seq<char>)
    requires
        forall|i: int| 0 <= i < s.len() ==> !is_digit(#[trigger] s[i]),
    ensures
        digits_in(s) == Seq::<char>::empty(),
    decreases s.len(),
{
    if s.len() > 0 {
        let front = s.drop_last();
        assert forall|i: int| 0 <= i < front.len() implies !is_digit(#[trigger] front[i]) by {
            assert(front[i] == s[i]);
        }
        assert(!is_digit(s[s.len() - 1]));
        lemma_no_digits(front);
    }
}

/// A size that was written in a `Size` tag is read back, whatever follows the tag.
pub proof fn law_size_is_read_back(size: usize, rest: Seq<char>)
    ensures
        size_value("[Size \""@ + decimal(size as nat) + "\"]"@ + seq!['\n'] + rest) == Ok::<
            usize,
            ApiError,
        >(size),
{
    reveal_strlit("[Size \"");
    reveal_strlit("\"]");
    let open = "[Size \""@;
    let number = decimal(size as nat);
    let close = "\"]"@;
    let tag = open + number + close;
    assert(open =~= seq!['[', 'S', 'i', 'z', 'e', ' ', '"']);
    assert(close =~= seq!['"', ']']);
    law_decimal_is_numeral(size as nat);
    assert forall|i: int| 0 <= i < tag.len() implies #[trigger] tag[i] != '\n' by {
        if open.len() <= i < open.len() + number.len() {
            assert(tag[i] == number[i - open.len()]);
            assert(is_digit(number[i - open.len()]));
        }
    }
    law_line_feed_ends_a_line(tag, rest);
    assert(tag.last() == ']');
    let list = seq![tag] + lines(rest);
    assert(list[0] == tag);
    assert(tag[0] == '[' && tag[1] == 'S' && tag[2] == 'i' && tag[3] == 'z' && tag[4] == 'e');
    assert(trim_start(tag) == tag);
    assert(trim(tag) == tag);
    assert(is_size_tag(tag));
    lemma_no_digits(open);
    lemma_no_digits(close);
    lemma_digits_in_digits(number);
    lemma_digits_in_parts(open, number);
    lemma_digits_in_parts(open + number, close);
    assert(digits_in(tag) =~= number);
}

/// Lines that are no `Size` tag are passed over.
pub proof fn law_other_lines_are_passed_over(line: Seq<char>, rest: Seq<char>)
    requires
        forall|i: int| 0 <= i < line.len() ==> #[trigger] line[i] != '\n',
        !is_size_tag(line),
    ensures
        size_value(line + seq!['\n'] + rest) == size_value(rest),
{
    law_line_feed_ends_a_line(line, rest);
    let first = without_return(line);
    if line.len() > 0 && line.last() == '\r' {
        law_trailing_white_space_is_trimmed(first, '\r');
        assert(first.push('\r') =~= line);
    }
    assert(!is_size_tag(first));
    let list = seq![first] + lines(rest);
    assert(list[0] == first);
    assert(list.drop_first() =~= lines(rest));
}

} // verus!
