//! Helpers on strings: comparison, splitting at a character, reading
//! decimal numbers, and reading text from bytes. The last is left to the
//! standard library and stated, not proved.

use vstd::prelude::*;
use vstd::string::*;
use vstd::utf8::{decode_utf8, valid_utf8};

verus! {

/// `String::from_utf8`: the text that the bytes encode, where they are
/// valid UTF-8, else `None`.
#[verifier::external_body]
pub(crate) fn text_from_utf8(bytes: Vec<u8>) -> (text: Option<String>)
    ensures
        text is Some <==> valid_utf8(bytes@),
        text matches Some(t) ==> t@ == decode_utf8(bytes@),
{
    String::from_utf8(bytes).ok()
}

/// Compares two strings.
pub fn str_equal(left: &str, right: &str) -> (same: bool)
    ensures
        same == (left@ == right@),
{
    left.to_owned() == right.to_owned()
}

/// The characters of a string.
pub fn chars_of(text: &str) -> (chars: Vec<char>)
    ensures
        chars@ == text@,
{
    let n: usize = text.unicode_len();
    let mut chars: Vec<char> = Vec::new();
    let mut i: usize = 0;
    while i < n
        invariant
            n == text@.len(),
            i <= n,
            chars@ == text@.subrange(0, i as int),
        decreases n - i,
    {
        chars.push(text.get_char(i));
        assert(chars@ =~= text@.subrange(0, i + 1));
        i += 1;
    }
    assert(text@.subrange(0, n as int) =~= text@);
    chars
}

/// The first place at or after `from` where the character stands, or the
/// text's length where it stands nowhere there.
pub open spec fn first_place(text: Seq<char>, c: char, from: int) -> int
    decreases text.len() - from,
{
    if from < 0 || from >= text.len() {
        text.len() as int
    } else if text[from] == c {
        from
    } else {
        first_place(text, c, from + 1)
    }
}

/// The text before and the text after the character, where it occurs
/// exactly once.
pub open spec fn spec_split_once(text: Seq<char>, c: char) -> Option<(Seq<char>, Seq<char>)> {
    let at = first_place(text, c, 0);
    if at < text.len() && first_place(text, c, at + 1) == text.len() {
        Some((text.subrange(0, at), text.subrange(at + 1, text.len() as int)))
    } else {
        None
    }
}

/// The first place at or after `from` where the character stands.
pub fn find_from(chars: &Vec<char>, c: char, from: usize) -> (place: usize)
    requires
        from <= chars@.len(),
    ensures
        place == first_place(chars@, c, from as int),
        from <= place <= chars@.len(),
{
    let mut i: usize = from;
    while i < chars.len()
        invariant
            from <= i <= chars@.len(),
            first_place(chars@, c, from as int) == first_place(chars@, c, i as int),
        decreases chars@.len() - i,
    {
        if chars[i] == c {
            return i;
        }
        i += 1;
    }
    i
}

/// Splits a text at a character that occurs in it exactly once.
pub fn split_once(text: &str, c: char) -> (parts: Option<(String, String)>)
    ensures
        (match parts {
            Some(p) => Some((p.0@, p.1@)),
            None => None,
        }) == spec_split_once(text@, c),
{
    let chars = chars_of(text);
    let at: usize = find_from(&chars, c, 0);
    if at >= chars.len() {
        return None;
    }
    if find_from(&chars, c, at + 1) != chars.len() {
        return None;
    }
    let left = text.substring_char(0, at).to_owned();
    let right = text.substring_char(at + 1, chars.len()).to_owned();
    Some((left, right))
}

/// Whether the character is a decimal digit.
pub open spec fn is_digit(c: char) -> bool {
    '0' <= c <= '9'
}

/// The number that the first `upto` characters spell, all of them digits.
pub open spec fn digits_value(digits: Seq<char>, upto: int) -> int
    decreases upto,
{
    if upto <= 0 {
        0
    } else {
        digits_value(digits, upto - 1) * 10 + (digits[upto - 1] as int - '0' as int)
    }
}

/// The part of a number's text that holds its digits: what follows a
/// leading `+`, or all of it.
pub open spec fn digits_part(text: Seq<char>) -> Seq<char> {
    if text.len() > 0 && text[0] == '+' {
        text.subrange(1, text.len() as int)
    } else {
        text
    }
}

/// The number that a text spells: an optional `+`, then one or more decimal
/// digits and nothing else, with a value of at most `max`.
pub open spec fn spec_parse_decimal(text: Seq<char>, max: u64) -> Option<u64> {
    let digits = digits_part(text);
    if digits.len() > 0 && (forall|j: int| 0 <= j < digits.len() ==> is_digit(#[trigger] digits[j]))
        && digits_value(digits, digits.len() as int) <= max {
        Some(digits_value(digits, digits.len() as int) as u64)
    } else {
        None
    }
}

/// The value of digits never shrinks as more digits are read.
pub proof fn lemma_digits_value_grows(digits: Seq<char>, i: int, j: int)
    requires
        0 <= i <= j <= digits.len(),
        forall|k: int| 0 <= k < digits.len() ==> is_digit(#[trigger] digits[k]),
    ensures
        0 <= digits_value(digits, i) <= digits_value(digits, j),
    decreases j,
{
    if i < j {
        lemma_digits_value_grows(digits, i, j - 1);
    } else if i > 0 {
        lemma_digits_value_grows(digits, i - 1, i - 1);
    }
}

/// Reads a decimal number of at most `max`.
pub fn parse_decimal(text: &str, max: u64) -> (number: Option<u64>)
    ensures
        number == spec_parse_decimal(text@, max),
{
    let chars = chars_of(text);
    let start: usize = if chars.len() > 0 && chars[0] == '+' {
        1
    } else {
        0
    };
    let ghost digits = digits_part(text@);
    assert(digits =~= chars@.subrange(start as int, chars@.len() as int));
    if start == chars.len() {
        return None;
    }
    let mut value: u64 = 0;
    let mut i: usize = start;
    while i < chars.len()
        invariant
            start <= i <= chars@.len(),
            digits == digits_part(text@),
            digits == chars@.subrange(start as int, chars@.len() as int),
            forall|j: int| 0 <= j < i - start ==> is_digit(#[trigger] digits[j]),
            value == digits_value(digits, i - start),
            value <= max,
        decreases chars@.len() - i,
    {
        let c: char = chars[i];
        assert(digits[i - start] == c);
        if c < '0' || c > '9' {
            assert(!is_digit(digits[i - start]));
            return None;
        }
        let digit: u64 = (c as u32 - '0' as u32) as u64;
        if digit > max || value > (max - digit) / 10 {
            proof {
                assert(digits_value(digits, i - start + 1) > max);
                if forall|j: int| 0 <= j < digits.len() ==> is_digit(#[trigger] digits[j]) {
                    lemma_digits_value_grows(digits, i - start + 1, digits.len() as int);
                }
            }
            return None;
        }
        value = value * 10 + digit;
        i += 1;
    }
    assert(digits.len() == chars@.len() - start);
    Some(value)
}

} // verus!
