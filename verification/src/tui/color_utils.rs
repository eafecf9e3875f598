//! The colours of calendars.

use vstd::prelude::*;
use vstd::string::StrSliceExecFns;

verus! {

/// A colour on the screen.
#[derive(Debug, Clone, Copy, PartialEq, Eq, Structural)]
pub enum Color {
    /// A colour by its red, green and blue parts.
    Rgb(u8, u8, u8),
    Gray,
}

/// The value of the hexadecimal digit `c`, in either case; `None` for any
/// other character.
pub open spec fn hex_digit_value(c: char) -> Option<int> {
    if '0' <= c <= '9' {
        Some(c as int - '0' as int)
    } else if 'a' <= c <= 'f' {
        Some(c as int - 'a' as int + 10)
    } else if 'A' <= c <= 'F' {
        Some(c as int - 'A' as int + 10)
    } else {
        None
    }
}

/// The number that the two characters of `text` name in base 16: two
/// hexadecimal digits, or a plus sign and one hexadecimal digit.
pub open spec fn hex_pair_value(text: Seq<char>) -> Option<u8> {
    if text[0] == '+' {
        match hex_digit_value(text[1]) {
            Some(low) => Some(low as u8),
            None => None,
        }
    } else {
        match (hex_digit_value(text[0]), hex_digit_value(text[1])) {
            (Some(high), Some(low)) => Some((16 * high + low) as u8),
            _ => None,
        }
    }
}

/// The number that a text of two characters names in base 16.
///
/// Wraps `u8::from_str_radix` with radix 16, which takes an optional plus
/// sign followed by digits only, the letters in either case, and fails on
/// anything else.
#[verifier::external_body]
fn parse_hex_byte(text: &str) -> (r: Option<u8>)
    requires
        text@.len() == 2,
    ensures
        r == hex_pair_value(text@),
{
    u8::from_str_radix(text, 16).ok()
}

/// The colour that `hex` names as `#RRGGBB`: a number sign and three
/// numbers of two characters each, in base 16. `None` for any other text.
pub open spec fn hex_color(hex: Seq<char>) -> Option<Color> {
    if hex.len() == 7 && hex[0] == '#' {
        match (
            hex_pair_value(hex.subrange(1, 3)),
            hex_pair_value(hex.subrange(3, 5)),
            hex_pair_value(hex.subrange(5, 7)),
        ) {
            (Some(r), Some(g), Some(b)) => Some(Color::Rgb(r, g, b)),
            _ => None,
        }
    } else {
        None
    }
}

/// Reads a colour written as `#RRGGBB`.
pub fn parse_hex_color(hex: &str) -> (r: Option<Color>)
    ensures
        r == hex_color(hex@),
{
    if hex.unicode_len() != 7 {
        return None;
    }
    if hex.get_char(0) != '#' {
        return None;
    }
    let red = match parse_hex_byte(hex.substring_char(1, 3)) {
        Some(v) => v,
        None => {
            return None;
        },
    };
    let green = match parse_hex_byte(hex.substring_char(3, 5)) {
        Some(v) => v,
        None => {
            return None;
        },
    };
    let blue = match parse_hex_byte(hex.substring_char(5, 7)) {
        Some(v) => v,
        None => {
            return None;
        },
    };
    Some(Color::Rgb(red, green, blue))
}

/// The colour of an event whose calendar names none.
pub fn default_event_color() -> (r: Color)
    ensures
        r == Color::Gray,
{
    Color::Gray
}

} // verus!
