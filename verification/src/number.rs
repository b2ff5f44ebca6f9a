//! Whole numbers in decimal notation: reading and writing.

use vstd::prelude::*;
use vstd::slice::slice_subrange;
use vstd::string::*;

use crate::text::chars_of;

verus! {

/// Whether `c` is one of the ten ASCII digits.
pub open spec fn is_digit(c: char) -> bool {
    '0' <= c <= '9'
}

/// The number that the digit `c` stands for.
pub open spec fn digit_value(c: char) -> int {
    c as int - '0' as int
}

/// Whether `s` is a numeral: one digit or more, and nothing else.
pub open spec fn is_numeral(s: Seq<char>) -> bool {
    &&& s.len() > 0
    &&& forall|i: int| 0 <= i < s.len() ==> is_digit(#[trigger] s[i])
}

/// The number that the numeral `s` stands for.
pub open spec fn numeral_value(s: Seq<char>) -> int
    decreases s.len(),
{
    if s.len() == 0 {
        0
    } else {
        10 * numeral_value(s.drop_last()) + digit_value(s.last())
    }
}

/// The number that `s` stands for where no minus sign is allowed: a numeral, perhaps
/// behind a plus sign.
pub open spec fn unsigned_value(s: Seq<char>) -> Option<int> {
    let numeral = if s.len() > 0 && s[0] == '+' {
        s.drop_first()
    } else {
        s
    };
    if is_numeral(numeral) {
        Some(numeral_value(numeral))
    } else {
        None
    }
}

/// The number that `s` stands for where a sign is allowed: a numeral, perhaps behind a
/// plus or a minus sign.
pub open spec fn signed_value(s: Seq<char>) -> Option<int> {
    if s.len() > 0 && s[0] == '-' {
        let numeral = s.drop_first();
        if is_numeral(numeral) {
            Some(-numeral_value(numeral))
        } else {
            None
        }
    } else {
        unsigned_value(s)
    }
}

/// `value`, if there is one and it lies between `low` and `high`.
pub open spec fn within(value: Option<int>, low: int, high: int) -> Option<int> {
    match value {
        Some(n) => if low <= n <= high {
            Some(n)
        } else {
            None
        },
        None => None,
    }
}

/// Whether `c` is a digit.
pub fn digit(c: char) -> (yes: bool)
    ensures
        yes == is_digit(c),
{
    '0' <= c && c <= '9'
}

/// More digits never make a numeral smaller.
proof fn lemma_numeral_grows(s: Seq<char>, n: int)
    requires
        0 <= n <= s.len(),
        forall|i: int| 0 <= i < s.len() ==> is_digit(#[trigger] s[i]),
    ensures
        0 <= numeral_value(s.take(n)) <= numeral_value(s),
    decreases s.len(),
{
    if s.len() == 0 {
        assert(s.take(n) =~= s);
    } else {
        let front = s.drop_last();
        assert(is_digit(s[s.len() - 1]));
        assert forall|i: int| 0 <= i < front.len() implies is_digit(#[trigger] front[i]) by {
            assert(front[i] == s[i]);
        }
        lemma_numeral_grows(front, if n < s.len() { n } else { n - 1 });
        if n < s.len() {
            assert(front.take(n) =~= s.take(n));
        } else {
            assert(s.take(n) =~= s);
        }
    }
}

/// Reads the numeral `chars`, if it is one and stands for at most `max`.
pub fn read_numeral(chars: &[char], max: u64) -> (value: Option<u64>)
    ensures
        value is Some <==> is_numeral(chars@) && numeral_value(chars@) <= max,
        value matches Some(n) ==> n == numeral_value(chars@),
{
    if chars.len() == 0 {
        return None;
    }
    let mut n: u64 = 0;
    let mut i: usize = 0;
    assert(chars@.take(0) =~= Seq::empty());
    while i < chars.len()
        invariant
            i <= chars@.len(),
            forall|k: int| 0 <= k < i ==> is_digit(#[trigger] chars@[k]),
            n == numeral_value(chars@.take(i as int)),
            n <= max,
        decreases chars.len() - i,
    {
        let c = chars[i];
        if !digit(c) {
            assert(!is_digit(chars@[i as int]));
            return None;
        }
        let d: u64 = (c as u32 - '0' as u32) as u64;
        let ghost more = chars@.take(i + 1);
        assert(more.drop_last() =~= chars@.take(i as int));
        assert(numeral_value(more) == 10 * n + d);
        if n > max / 10 || 10 * (n as u128) + (d as u128) > max as u128 {
            proof {
                assert(numeral_value(more) > max);
                if is_numeral(chars@) {
                    lemma_numeral_grows(chars@, i + 1);
                }
            }
            return None;
        }
        n = 10 * n + d;
        i = i + 1;
    }
    assert(chars@.take(chars@.len() as int) =~= chars@);
    Some(n)
}

/// A number without a minus sign is not negative.
proof fn lemma_unsigned_not_negative(s: Seq<char>)
    ensures
        unsigned_value(s) matches Some(n) ==> n >= 0,
{
    if unsigned_value(s) is Some {
        let numeral = if s[0] == '+' {
            s.drop_first()
        } else {
            s
        };
        lemma_numeral_grows(numeral, 0);
    }
}

/// Reads an unsigned number of at most `max`.
pub fn parse_unsigned(text: &str, max: u64) -> (value: Option<u64>)
    ensures
        value is Some <==> within(unsigned_value(text@), 0, max as int) is Some,
        value matches Some(n) ==> unsigned_value(text@) == Some(n as int),
{
    let chars = chars_of(text);
    proof {
        lemma_unsigned_not_negative(text@);
    }
    if chars.len() > 0 && chars[0] == '+' {
        let rest = slice_subrange(chars.as_slice(), 1, chars.len());
        assert(rest@ =~= text@.drop_first());
        read_numeral(rest, max)
    } else {
        read_numeral(chars.as_slice(), max)
    }
}

/// Reads a `u64`.
pub fn parse_u64(text: &str) -> (value: Option<u64>)
    ensures
        value is Some <==> within(unsigned_value(text@), 0, u64::MAX as int) is Some,
        value matches Some(n) ==> unsigned_value(text@) == Some(n as int),
{
    parse_unsigned(text, u64::MAX)
}

/// Reads a `u32`.
pub fn parse_u32(text: &str) -> (value: Option<u32>)
    ensures
        value is Some <==> within(unsigned_value(text@), 0, u32::MAX as int) is Some,
        value matches Some(n) ==> unsigned_value(text@) == Some(n as int),
{
    match parse_unsigned(text, u32::MAX as u64) {
        Some(n) => Some(n as u32),
        None => None,
    }
}

/// Reads a `usize`.
pub fn parse_usize(text: &str) -> (value: Option<usize>)
    ensures
        value is Some <==> within(unsigned_value(text@), 0, usize::MAX as int) is Some,
        value matches Some(n) ==> unsigned_value(text@) == Some(n as int),
{
    match parse_unsigned(text, usize::MAX as u64) {
        Some(n) => Some(n as usize),
        None => None,
    }
}

/// Reads an `i8`.
pub fn parse_i8(text: &str) -> (value: Option<i8>)
    ensures
        value is Some <==> within(signed_value(text@), i8::MIN as int, i8::MAX as int) is Some,
        value matches Some(n) ==> signed_value(text@) == Some(n as int),
{
    let chars = chars_of(text);
    if chars.len() > 0 && chars[0] == '-' {
        let rest = slice_subrange(chars.as_slice(), 1, chars.len());
        assert(rest@ =~= text@.drop_first());
        proof {
            if is_numeral(rest@) {
                lemma_numeral_grows(rest@, 0);
            }
        }
        match read_numeral(rest, 128) {
            Some(n) => Some((-(n as i16)) as i8),
            None => None,
        }
    } else {
        proof {
            lemma_unsigned_not_negative(text@);
        }
        match parse_unsigned(text, 127) {
            Some(n) => Some(n as i8),
            None => None,
        }
    }
}

// ---------------------------------------------------------------------------
// Writing
// ---------------------------------------------------------------------------

/// The digit that stands for `d`.
pub open spec fn digit_of(d: int) -> char {
    ('0' as int + d) as char
}

/// The decimal notation of `n`.
pub open spec fn decimal(n: nat) -> Seq<char>
    decreases n,
{
    if n < 10 {
        seq![digit_of(n as int)]
    } else {
        decimal(n / 10).push(digit_of((n % 10) as int))
    }
}

/// The decimal notation of `n`, with a minus sign where it is negative.
pub open spec fn signed_decimal(n: int) -> Seq<char> {
    if n < 0 {
        seq!['-'] + decimal((-n) as nat)
    } else {
        decimal(n as nat)
    }
}

fn digit_text(d: u128) -> (text: &'static str)
    requires
        d < 10,
    ensures
        text@ == seq![digit_of(d as int)],
{
    proof {
        reveal_strlit("0");
        reveal_strlit("1");
        reveal_strlit("2");
        reveal_strlit("3");
        reveal_strlit("4");
        reveal_strlit("5");
        reveal_strlit("6");
        reveal_strlit("7");
        reveal_strlit("8");
        reveal_strlit("9");
    }
    if d == 0 {
        "0"
    } else if d == 1 {
        "1"
    } else if d == 2 {
        "2"
    } else if d == 3 {
        "3"
    } else if d == 4 {
        "4"
    } else if d == 5 {
        "5"
    } else if d == 6 {
        "6"
    } else if d == 7 {
        "7"
    } else if d == 8 {
        "8"
    } else {
        "9"
    }
}

/// Writes `n` in decimal notation.
pub fn decimal_text(n: u128) -> (text: String)
    ensures
        text@ == decimal(n as nat),
    decreases n,
{
    if n < 10 {
        digit_text(n).to_owned()
    } else {
        let front = decimal_text(n / 10);
        let text = front.concat(digit_text(n % 10));
        assert(text@ =~= decimal(n as nat));
        text
    }
}

/// Writes `n` in decimal notation, with a minus sign where it is negative.
pub fn signed_decimal_text(n: i64) -> (text: String)
    ensures
        text@ == signed_decimal(n as int),
{
    if n < 0 {
        let sign = "-".to_owned();
        let number = decimal_text((-(n as i128)) as u128);
        proof {
            reveal_strlit("-");
            assert("-"@ =~= seq!['-']);
        }
        sign.concat(number.as_str())
    } else {
        decimal_text(n as u128)
    }
}

/// What is written is a numeral, and stands for the number.
pub proof fn law_decimal_is_numeral(n: nat)
    ensures
        is_numeral(decimal(n)),
        numeral_value(decimal(n)) == n,
    decreases n,
{
    let s = decimal(n);
    if n < 10 {
        assert(s.drop_last() =~= Seq::empty());
        assert(numeral_value(s.drop_last()) == 0);
    } else {
        law_decimal_is_numeral(n / 10);
        assert(s.drop_last() =~= decimal(n / 10));
        assert(s.last() == digit_of((n % 10) as int));
        assert forall|i: int| 0 <= i < s.len() implies is_digit(#[trigger] s[i]) by {
            if i < s.len() - 1 {
                assert(s[i] == decimal(n / 10)[i]);
            }
        }
    }
}

/// Reading what was written gives the number back, without a sign.
pub proof fn law_decimal_reads_back(n: nat)
    ensures
        unsigned_value(decimal(n)) == Some(n as int),
{
    law_decimal_is_numeral(n);
    assert(is_digit(decimal(n)[0]));
}

/// Reading what was written gives the number back, with a sign.
pub proof fn law_signed_decimal_reads_back(n: int)
    ensures
        signed_value(signed_decimal(n)) == Some(n),
{
    if n < 0 {
        law_decimal_is_numeral((-n) as nat);
        assert(signed_decimal(n).drop_first() =~= decimal((-n) as nat));
    } else {
        law_decimal_reads_back(n as nat);
        law_decimal_is_numeral(n as nat);
        assert(is_digit(decimal(n as nat)[0]));
    }
}

} // verus!
