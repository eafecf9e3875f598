//! Strings: comparison and building.

use vstd::prelude::*;

verus! {

/// Whether two strings hold the same characters.
///
/// Wraps `==` of `str`, which compares the two strings character by
/// character.
#[verifier::external_body]
pub(crate) fn str_equal(a: &str, b: &str) -> (r: bool)
    ensures
        r == (a@ == b@),
{
    a == b
}

/// Puts one character at the end of a string.
///
/// Wraps `String::push`, which appends the character.
#[verifier::external_body]
pub(crate) fn push_char(text: &mut String, c: char)
    ensures
        final(text)@ == old(text)@.push(c),
{
    text.push(c)
}

/// The character of the decimal digit `d`.
pub open spec fn digit_char(d: int) -> char {
    if d == 0 {
        '0'
    } else if d == 1 {
        '1'
    } else if d == 2 {
        '2'
    } else if d == 3 {
        '3'
    } else if d == 4 {
        '4'
    } else if d == 5 {
        '5'
    } else if d == 6 {
        '6'
    } else if d == 7 {
        '7'
    } else if d == 8 {
        '8'
    } else {
        '9'
    }
}

/// The two decimal digits of `n`, the tens first; of a greater number, its
/// last two digits.
pub open spec fn two_digits(n: int) -> Seq<char> {
    seq![digit_char((n / 10) % 10), digit_char(n % 10)]
}

/// The character of the decimal digit `d`.
pub(crate) fn digit_to_char(d: u32) -> (c: char)
    requires
        d < 10,
    ensures
        c == digit_char(d as int),
{
    match d {
        0 => '0',
        1 => '1',
        2 => '2',
        3 => '3',
        4 => '4',
        5 => '5',
        6 => '6',
        7 => '7',
        8 => '8',
        _ => '9',
    }
}

/// Puts the two decimal digits of `n` at the end of `text`.
pub(crate) fn push_two_digits(text: &mut String, n: u32)
    ensures
        final(text)@ == old(text)@ + two_digits(n as int),
{
    push_char(text, digit_to_char((n / 10) % 10));
    push_char(text, digit_to_char(n % 10));
    assert(text@ =~= old(text)@ + two_digits(n as int));
}

} // verus!
