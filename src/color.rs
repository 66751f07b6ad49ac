//! The terrain's base color and its six-digit hexadecimal form.
use vstd::prelude::*;
use vstd::string::StringSliceAdditionalSpecFns;

verus! {

/// A 24-bit RGB color.
#[derive(Clone, Copy, Debug, PartialEq, Eq, Structural)]
pub struct Rgb {
    pub red: u8,
    pub green: u8,
    pub blue: u8,
}

/// Value of an ASCII hexadecimal digit (`0`-`9` are 48-57, `a`-`f` 97-102,
/// `A`-`F` 65-70), if `b` is one.
pub open spec fn hex_digit_value(b: u8) -> Option<u8> {
    if 48 <= b && b <= 57 {
        Some((b - 48) as u8)
    } else if 97 <= b && b <= 102 {
        Some((b - 87) as u8)
    } else if 65 <= b && b <= 70 {
        Some((b - 55) as u8)
    } else {
        None
    }
}

/// The byte written by two hexadecimal digits, high digit first.
pub open spec fn hex_pair_value(hi: u8, lo: u8) -> Option<u8> {
    match (hex_digit_value(hi), hex_digit_value(lo)) {
        (Some(h), Some(l)) => Some((h * 16 + l) as u8),
        _ => None,
    }
}

/// The color that six hexadecimal digits `rrggbb` name; `None` for any other text.
pub open spec fn decode_hex_color(b: Seq<u8>) -> Option<Rgb> {
    if b.len() != 6 {
        None
    } else {
        match (hex_pair_value(b[0], b[1]), hex_pair_value(b[2], b[3]), hex_pair_value(b[4], b[5])) {
            (Some(r), Some(g), Some(bl)) => Some(Rgb { red: r, green: g, blue: bl }),
            _ => None,
        }
    }
}

fn hex_digit(b: u8) -> (r: Option<u8>)
    ensures
        r == hex_digit_value(b),
{
    if 48 <= b && b <= 57 {
        Some(b - 48)
    } else if 97 <= b && b <= 102 {
        Some(b - 87)
    } else if 65 <= b && b <= 70 {
        Some(b - 55)
    } else {
        None
    }
}

fn hex_pair(hi: u8, lo: u8) -> (r: Option<u8>)
    ensures
        r == hex_pair_value(hi, lo),
{
    match (hex_digit(hi), hex_digit(lo)) {
        (Some(h), Some(l)) => Some(h * 16 + l),
        _ => None,
    }
}

/// Reads a color written as six hexadecimal digits, `rrggbb`, in either case.
pub fn parse_hex_color(text: &str) -> (r: Option<Rgb>)
    ensures
        r == decode_hex_color(text.spec_bytes()),
{
    let b = text.as_bytes();
    if b.len() != 6 {
        return None;
    }
    match (hex_pair(b[0], b[1]), hex_pair(b[2], b[3]), hex_pair(b[4], b[5])) {
        (Some(red), Some(green), Some(blue)) => Some(Rgb { red, green, blue }),
        _ => None,
    }
}

} // verus!
