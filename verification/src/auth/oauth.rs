//! What the login flow computes: the authorisation code in the request that
//! the provider sends the browser back with, and the tokens out of what the
//! provider grants.

use super::tokens::Tokens;
use crate::text::push_char;
use vstd::prelude::*;

verus! {

/// Why no authorisation code was found in a request.
#[derive(Debug, Clone, Copy, PartialEq, Eq, Structural)]
pub enum CallbackError {
    /// The request line has fewer than two words.
    InvalidFormat,
    /// The path of the request has no question mark.
    NoQuery,
    /// No parameter of the query is `code` with a value.
    CodeNotFound,
}

impl CallbackError {
    /// The text of the error.
    pub fn message(&self) -> (r: &'static str)
        ensures
            r@ == match self {
                CallbackError::InvalidFormat => "Invalid request format"@,
                CallbackError::NoQuery => "No query parameters in request"@,
                CallbackError::CodeNotFound => "Authorization code not found in request"@,
            },
    {
        match self {
            CallbackError::InvalidFormat => "Invalid request format",
            CallbackError::NoQuery => "No query parameters in request",
            CallbackError::CodeNotFound => "Authorization code not found in request",
        }
    }
}

/// Why a grant of the provider gives no pair of tokens.
#[derive(Debug, Clone, Copy, PartialEq, Eq, Structural)]
pub enum GrantError {
    /// The provider issued no refresh token.
    NoRefreshToken,
}

/// The pair of tokens out of what the provider granted for an authorisation
/// code. A grant without a refresh token is of no use.
pub fn tokens_from_grant(access_token: String, refresh_token: Option<String>) -> (r: Result<
    Tokens,
    GrantError,
>)
    ensures
        match refresh_token {
            Some(token) => r matches Ok(tokens) && tokens.access_token == access_token
                && tokens.refresh_token == token,
            None => r == Err::<Tokens, GrantError>(GrantError::NoRefreshToken),
        },
{
    match refresh_token {
        Some(token) => Ok(Tokens::new(access_token, token)),
        None => Err(GrantError::NoRefreshToken),
    }
}

/// Whether `c` is white space: a character with the Unicode property
/// `White_Space`.
pub open spec fn is_space(c: char) -> bool {
    let n = c as u32;
    ||| 0x09 <= n <= 0x0D
    ||| n == 0x20
    ||| n == 0x85
    ||| n == 0xA0
    ||| n == 0x1680
    ||| 0x2000 <= n <= 0x200A
    ||| n == 0x2028
    ||| n == 0x2029
    ||| n == 0x202F
    ||| n == 0x205F
    ||| n == 0x3000
}

/// The first place from `from` up to `to` at which `text` has white space,
/// if `space` is true, or something else, if it is false; `to` where there
/// is none.
pub open spec fn find_space(text: Seq<char>, space: bool, from: int, to: int) -> int
    decreases to - from,
{
    if from >= to {
        to
    } else if is_space(text[from]) == space {
        from
    } else {
        find_space(text, space, from + 1, to)
    }
}

/// The first place from `from` up to `to` at which `text` has the
/// character `c`; `to` where there is none.
pub open spec fn find_char(text: Seq<char>, c: char, from: int, to: int) -> int
    decreases to - from,
{
    if from >= to {
        to
    } else if text[from] == c {
        from
    } else {
        find_char(text, c, from + 1, to)
    }
}

/// Where the second word of `line` begins and ends, the words being what
/// white space separates; `None` where the line has fewer than two words.
pub open spec fn second_word(line: Seq<char>) -> Option<(int, int)> {
    let n = line.len() as int;
    let first = find_space(line, false, 0, n);
    let gap = find_space(line, true, first, n);
    let begin = find_space(line, false, gap, n);
    let end = find_space(line, true, begin, n);
    if begin >= n {
        None
    } else {
        Some((begin, end))
    }
}

/// The value of the parameter that stands in `text` from `from` up to `to`,
/// if that parameter is `code`, an equals sign and a value without another
/// equals sign.
pub open spec fn code_value(text: Seq<char>, from: int, to: int) -> Option<Seq<char>> {
    let equals = find_char(text, '=', from, to);
    if equals < to && find_char(text, '=', equals + 1, to) == to && text.subrange(from, equals)
        == "code"@ {
        Some(text.subrange(equals + 1, to))
    } else {
        None
    }
}

/// The value of the first parameter `code` among the parameters that stand
/// in `text` from `from` up to `to` with `&` between them.
pub open spec fn find_code(text: Seq<char>, from: int, to: int) -> Option<Seq<char>>
    decreases to - from,
{
    if from > to {
        None
    } else {
        let end = find_char(text, '&', from, to);
        match code_value(text, from, end) {
            Some(value) => Some(value),
            None => if end >= to || end < from {
                None
            } else {
                find_code(text, end + 1, to)
            },
        }
    }
}

/// The authorisation code in the request line `line`, such as
/// `GET /?code=abc&state=xyz HTTP/1.1`: the second word of the line is the
/// path; what follows its first question mark is the query; the code is the
/// value of the first parameter `code` of the query.
pub open spec fn code_in_request(line: Seq<char>) -> Result<Seq<char>, CallbackError> {
    match second_word(line) {
        None => Err(CallbackError::InvalidFormat),
        Some((begin, end)) => {
            let mark = find_char(line, '?', begin, end);
            if mark >= end {
                Err(CallbackError::NoQuery)
            } else {
                match find_code(line, mark + 1, end) {
                    Some(code) => Ok(code),
                    None => Err(CallbackError::CodeNotFound),
                }
            }
        },
    }
}

/// Whether `c` is white space.
fn is_whitespace(c: char) -> (b: bool)
    ensures
        b == is_space(c),
{
    let n: u32 = c as u32;
    (0x09 <= n && n <= 0x0D) || n == 0x20 || n == 0x85 || n == 0xA0 || n == 0x1680 || (0x2000 <= n
        && n <= 0x200A) || n == 0x2028 || n == 0x2029 || n == 0x202F || n == 0x205F || n
        == 0x3000
}

/// The first place from `from` up to `to` with white space, or with
/// something else.
fn scan_space(text: &Vec<char>, space: bool, from: usize, to: usize) -> (r: usize)
    requires
        from <= to <= text@.len(),
    ensures
        r == find_space(text@, space, from as int, to as int),
        from <= r <= to,
{
    let mut i: usize = from;
    while i < to
        invariant
            from <= i <= to <= text@.len(),
            find_space(text@, space, from as int, to as int) == find_space(
                text@,
                space,
                i as int,
                to as int,
            ),
        decreases to - i,
    {
        if is_whitespace(text[i]) == space {
            return i;
        }
        i = i + 1;
    }
    to
}

/// The first place from `from` up to `to` with the character `c`.
fn scan_char(text: &Vec<char>, c: char, from: usize, to: usize) -> (r: usize)
    requires
        from <= to <= text@.len(),
    ensures
        r == find_char(text@, c, from as int, to as int),
        from <= r <= to,
{
    let mut i: usize = from;
    while i < to
        invariant
            from <= i <= to <= text@.len(),
            find_char(text@, c, from as int, to as int) == find_char(
                text@,
                c,
                i as int,
                to as int,
            ),
        decreases to - i,
    {
        if text[i] == c {
            return i;
        }
        i = i + 1;
    }
    to
}

/// The characters of `text`.
fn chars_of(text: &str) -> (r: Vec<char>)
    ensures
        r@ == text@,
{
    let mut chars: Vec<char> = Vec::new();
    for c in it: text.chars()
        invariant
            chars@ == it.seq().take(it.index() as int),
    {
        let ghost before = chars@;
        chars.push(c);
        assert(chars@ =~= it.seq().take(it.index() + 1));
    }
    chars
}

/// The characters of `text` from `from` up to `to`, as a string.
fn string_of(text: &Vec<char>, from: usize, to: usize) -> (r: String)
    requires
        from <= to <= text@.len(),
    ensures
        r@ == text@.subrange(from as int, to as int),
{
    let mut out = String::new();
    let mut i: usize = from;
    while i < to
        invariant
            from <= i <= to <= text@.len(),
            out@ == text@.subrange(from as int, i as int),
        decreases to - i,
    {
        push_char(&mut out, text[i]);
        i = i + 1;
        assert(out@ =~= text@.subrange(from as int, i as int));
    }
    out
}

/// The value of the parameter from `from` up to `to`, if it is the code.
fn parameter_code(text: &Vec<char>, from: usize, to: usize) -> (r: Option<String>)
    requires
        from <= to <= text@.len(),
    ensures
        match r {
            Some(value) => code_value(text@, from as int, to as int) == Some(value@),
            None => code_value(text@, from as int, to as int) is None,
        },
{
    let equals: usize = scan_char(text, '=', from, to);
    if equals >= to {
        return None;
    }
    if scan_char(text, '=', equals + 1, to) != to {
        return None;
    }
    proof {
        reveal_strlit("code");
    }
    let ghost name = text@.subrange(from as int, equals as int);
    if equals - from == 4 && text[from] == 'c' && text[from + 1] == 'o' && text[from + 2] == 'd'
        && text[from + 3] == 'e' {
        assert(name =~= "code"@);
        Some(string_of(text, equals + 1, to))
    } else {
        assert(name != "code"@) by {
            if name == "code"@ {
                assert(name.len() == 4);
                assert(name[0] == 'c' && name[1] == 'o' && name[2] == 'd' && name[3] == 'e');
            }
        }
        None
    }
}

/// Finds the authorisation code in the first line of the request with
/// which the provider sends the browser back.
pub fn extract_code_from_request(request_line: &str) -> (r: Result<String, CallbackError>)
    ensures
        match r {
            Ok(code) => code_in_request(request_line@) == Ok::<Seq<char>, CallbackError>(code@),
            Err(error) => code_in_request(request_line@) == Err::<Seq<char>, CallbackError>(
                error,
            ),
        },
{
    let text = chars_of(request_line);
    let n: usize = text.len();
    let first: usize = scan_space(&text, false, 0, n);
    let gap: usize = scan_space(&text, true, first, n);
    let begin: usize = scan_space(&text, false, gap, n);
    let end: usize = scan_space(&text, true, begin, n);
    if begin >= n {
        return Err(CallbackError::InvalidFormat);
    }
    let mark: usize = scan_char(&text, '?', begin, end);
    if mark >= end {
        return Err(CallbackError::NoQuery);
    }
    let mut from: usize = mark + 1;
    loop
        invariant
            mark + 1 <= from <= end <= text@.len(),
            find_code(text@, mark + 1, end as int) == find_code(text@, from as int, end as int),
            code_in_request(request_line@) == match find_code(text@, mark + 1, end as int) {
                Some(code) => Ok::<Seq<char>, CallbackError>(code),
                None => Err::<Seq<char>, CallbackError>(CallbackError::CodeNotFound),
            },
        decreases end - from,
    {
        let stop: usize = scan_char(&text, '&', from, end);
        match parameter_code(&text, from, stop) {
            Some(code) => {
                return Ok(code);
            },
            None => {},
        }
        if stop >= end {
            return Err(CallbackError::CodeNotFound);
        }
        from = stop + 1;
    }
}

} // verus!
