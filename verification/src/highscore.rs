//! The best score as it is kept between runs: a decimal number in a text.

use vstd::prelude::*;
use vstd::std_specs::iter::IteratorSpec;
use crate::text::{decimal, digit_char, push_decimal};

verus! {

/// White space as Unicode defines it.
pub open spec fn is_space(c: char) -> bool {
    let code = c as u32;
    ||| 0x09 <= code <= 0x0D
    ||| code == 0x20
    ||| code == 0x85
    ||| code == 0xA0
    ||| code == 0x1680
    ||| 0x2000 <= code <= 0x200A
    ||| code == 0x2028
    ||| code == 0x2029
    ||| code == 0x202F
    ||| code == 0x205F
    ||| code == 0x3000
}

/// One of the ten decimal digits.
pub open spec fn is_digit(c: char) -> bool {
    0x30 <= c as u32 <= 0x39
}

/// The number a decimal digit stands for.
pub open spec fn digit_value(c: char) -> nat {
    (c as u32 - 0x30) as nat
}

/// The text without the white space at its start.
pub open spec fn trim_start(text: Seq<char>) -> Seq<char>
    decreases text.len(),
{
    if text.len() > 0 && is_space(text.first()) {
        trim_start(text.drop_first())
    } else {
        text
    }
}

/// The text without the white space at its end.
pub open spec fn trim_end(text: Seq<char>) -> Seq<char>
    decreases text.len(),
{
    if text.len() > 0 && is_space(text.last()) {
        trim_end(text.drop_last())
    } else {
        text
    }
}

/// The text without the white space around it.
pub open spec fn trimmed(text: Seq<char>) -> Seq<char> {
    trim_end(trim_start(text))
}

/// The text without a plus sign in front of it.
pub open spec fn unsigned(text: Seq<char>) -> Seq<char> {
    if text.len() > 0 && text.first() == '+' {
        text.drop_first()
    } else {
        text
    }
}

/// Every character is a decimal digit.
pub open spec fn all_digits(text: Seq<char>) -> bool {
    forall|i: int| 0 <= i < text.len() ==> is_digit(#[trigger] text[i])
}

/// The number that a row of decimal digits stands for.
pub open spec fn digits_value(digits: Seq<char>) -> nat
    decreases digits.len(),
{
    if digits.len() == 0 {
        0
    } else {
        digits_value(digits.drop_last()) * 10 + digit_value(digits.last())
    }
}

/// The number written in a text: decimal digits, at least one, with or
/// without a plus sign in front, and no more than thirty-two bits can
/// hold. Any other text stands for no number.
pub open spec fn number_in(text: Seq<char>) -> Option<nat> {
    let digits = unsigned(text);
    if digits.len() > 0 && all_digits(digits) && digits_value(digits) <= u32::MAX {
        Some(digits_value(digits))
    } else {
        None
    }
}

/// The best score that a stored text holds: the number written in it,
/// white space around it aside, and zero where it holds none.
pub open spec fn stored_score(content: Seq<char>) -> nat {
    match number_in(trimmed(content)) {
        Some(score) => score,
        None => 0,
    }
}

/// The characters of a text.
fn chars_of(text: &str) -> (chars: Vec<char>)
    ensures
        chars@ == text@,
{
    broadcast use vstd::string::group_string_axioms;

    let mut chars: Vec<char> = Vec::new();
    let mut rest = text.chars();
    loop
        invariant
            chars@ + rest.remaining() == text@,
            rest.decrease() is Some,
        ensures
            chars@ == text@,
        decreases rest.decrease()->0,
    {
        match rest.next() {
            Some(c) => {
                chars.push(c);
                assert(chars@ + rest.remaining() =~= text@);
            },
            None => {
                assert(chars@ =~= text@);
                break ;
            },
        }
    }
    chars
}

/// Whether a character is white space.
fn char_is_space(c: char) -> (space: bool)
    ensures
        space == is_space(c),
{
    let code: u32 = c as u32;
    (0x09 <= code && code <= 0x0D) || code == 0x20 || code == 0x85 || code == 0xA0 || code == 0x1680
        || (0x2000 <= code && code <= 0x200A) || code == 0x2028 || code == 0x2029 || code == 0x202F
        || code == 0x205F || code == 0x3000
}

/// Trimming from the left goes on behind a space.
proof fn lemma_trim_start_step(text: Seq<char>, start: int)
    requires
        0 <= start <= text.len(),
    ensures
        trim_start(text.subrange(start, text.len() as int)) == if start < text.len() && is_space(
            text[start],
        ) {
            trim_start(text.subrange(start + 1, text.len() as int))
        } else {
            text.subrange(start, text.len() as int)
        },
{
    let rest = text.subrange(start, text.len() as int);
    if start < text.len() {
        assert(rest.drop_first() =~= text.subrange(start + 1, text.len() as int));
    }
}

/// Trimming from the right goes on in front of a space.
proof fn lemma_trim_end_step(text: Seq<char>, start: int, end: int)
    requires
        0 <= start <= end <= text.len(),
    ensures
        trim_end(text.subrange(start, end)) == if start < end && is_space(text[end - 1]) {
            trim_end(text.subrange(start, end - 1))
        } else {
            text.subrange(start, end)
        },
{
    let rest = text.subrange(start, end);
    if start < end {
        assert(rest.drop_last() =~= text.subrange(start, end - 1));
    }
}

/// One digit more: the value so far moves one place up.
proof fn lemma_digits_value_step(digits: Seq<char>, i: int)
    requires
        0 <= i < digits.len(),
    ensures
        digits_value(digits.take(i + 1)) == digits_value(digits.take(i)) * 10 + digit_value(
            digits[i],
        ),
{
    assert(digits.take(i + 1).drop_last() =~= digits.take(i));
}

/// The value of a row of digits is no smaller than that of its start.
proof fn lemma_digits_value_grows(digits: Seq<char>, i: int)
    requires
        0 <= i <= digits.len(),
    ensures
        digits_value(digits.take(i)) <= digits_value(digits),
    decreases digits.len() - i,
{
    if i < digits.len() {
        lemma_digits_value_step(digits, i);
        lemma_digits_value_grows(digits, i + 1);
    } else {
        assert(digits.take(i) =~= digits);
    }
}

/// The best score that a stored text holds; zero where it holds no number.
pub fn parse_highscore(content: &str) -> (score: u32)
    ensures
        score == stored_score(content@),
{
    let chars = chars_of(content);
    let ghost text = chars@;
    let len: usize = chars.len();
    let mut start: usize = 0;
    assert(text.subrange(0, len as int) =~= text);
    while start < len && char_is_space(chars[start])
        invariant
            start <= len,
            len == text.len(),
            text == chars@,
            trim_start(text) == trim_start(text.subrange(start as int, len as int)),
        decreases len - start,
    {
        proof {
            lemma_trim_start_step(text, start as int);
        }
        start = start + 1;
    }
    let mut end: usize = len;
    proof {
        lemma_trim_start_step(text, start as int);
    }
    while end > start && char_is_space(chars[end - 1])
        invariant
            start <= end <= len,
            len == text.len(),
            text == chars@,
            trimmed(text) == trim_end(text.subrange(start as int, end as int)),
        decreases end - start,
    {
        proof {
            lemma_trim_end_step(text, start as int, end as int);
        }
        end = end - 1;
    }
    proof {
        lemma_trim_end_step(text, start as int, end as int);
    }
    let ghost body = text.subrange(start as int, end as int);
    assert(trimmed(text) == body);
    let mut i: usize = if start < end && chars[start] == '+' {
        start + 1
    } else {
        start
    };
    let ghost first = i;
    let ghost digits = text.subrange(first as int, end as int);
    assert(unsigned(body) =~= digits);
    if i == end {
        return 0;
    }
    let mut value: u64 = 0;
    assert(digits.take(0) =~= Seq::<char>::empty());
    while i < end
        invariant
            first <= i <= end <= len,
            len == text.len(),
            text == chars@,
            digits == text.subrange(first as int, end as int),
            digits == unsigned(trimmed(content@)),
            value == digits_value(digits.take(i - first)),
            value <= u32::MAX,
            forall|j: int| 0 <= j < i - first ==> is_digit(#[trigger] digits[j]),
        decreases end - i,
    {
        let code: u32 = chars[i] as u32;
        assert(digits[i - first] == chars@[i as int]);
        if code < 0x30 || code > 0x39 {
            return 0;
        }
        proof {
            lemma_digits_value_step(digits, i - first);
            lemma_digits_value_grows(digits, i - first + 1);
        }
        value = value * 10 + (code - 0x30) as u64;
        if value > u32::MAX as u64 {
            return 0;
        }
        i = i + 1;
    }
    assert(digits.take(end - first) =~= digits);
    value as u32
}

/// The best score to start with. `stored` is the text that was kept from
/// earlier runs, if there is one; without it the best score is zero.
pub fn load_highscore(stored: Option<&str>) -> (score: u32)
    ensures
        score == match stored {
            Some(content) => stored_score(content@),
            None => 0,
        },
{
    match stored {
        Some(content) => parse_highscore(content),
        None => 0,
    }
}

/// The text to store for a best score: the number in decimal digits.
pub fn format_highscore(score: u32) -> (content: String)
    ensures
        content@ == decimal(score as nat),
{
    let mut content = String::new();
    push_decimal(&mut content, score);
    assert(content@ =~= decimal(score as nat));
    content
}

/// What `decimal` writes are digits, at least one, and read back they
/// give the number.
pub proof fn lemma_decimal_reads_back(n: nat)
    ensures
        decimal(n).len() > 0,
        all_digits(decimal(n)),
        digits_value(decimal(n)) == n,
    decreases n,
{
    reveal_with_fuel(digits_value, 2);
    if n >= 10 {
        lemma_decimal_reads_back(n / 10);
        assert(decimal(n).drop_last() =~= decimal(n / 10));
    } else {
        assert(decimal(n).drop_last() =~= Seq::<char>::empty());
    }
}

/// A stored best score comes back as it was: the text written for a score
/// holds that score.
pub proof fn lemma_stored_score_round_trip(score: u32)
    ensures
        stored_score(decimal(score as nat)) == score,
{
    let text = decimal(score as nat);
    lemma_decimal_reads_back(score as nat);
    assert(is_digit(text.first()));
    assert(is_digit(text.last()));
    assert(trim_start(text) == text);
    assert(trim_end(text) == text);
    assert(unsigned(text) == text);
}

} // verus!
