//! RGBA colors and decoding of the six-digit hex base color.

use vstd::prelude::*;

verus! {

/// An sRGBA color, one byte per channel.
#[derive(Clone, Copy, Debug, PartialEq, Eq, Structural)]
pub struct Srgba {
    /// Red component
    pub r: u8,
    /// Green component
    pub g: u8,
    /// Blue component
    pub b: u8,
    /// Alpha component
    pub a: u8,
}

impl Srgba {
    /// Creates a new sRGBA color with the given values.
    pub fn new(r: u8, g: u8, b: u8, a: u8) -> (c: Self)
        ensures
            c == (Srgba { r, g, b, a }),
    {
        Self { r, g, b, a }
    }
}

/// The value of a hexadecimal digit, or -1 where `c` is not one.
pub open spec fn hex_digit_value(c: char) -> int {
    match c {
        '0' => 0,
        '1' => 1,
        '2' => 2,
        '3' => 3,
        '4' => 4,
        '5' => 5,
        '6' => 6,
        '7' => 7,
        '8' => 8,
        '9' => 9,
        'a' => 10,
        'b' => 11,
        'c' => 12,
        'd' => 13,
        'e' => 14,
        'f' => 15,
        'A' => 10,
        'B' => 11,
        'C' => 12,
        'D' => 13,
        'E' => 14,
        'F' => 15,
        _ => -1,
    }
}

pub open spec fn is_hex_digit(c: char) -> bool {
    hex_digit_value(c) >= 0
}

/// A well-formed base color string: exactly six hexadecimal characters.
pub open spec fn color_string_ok(s: Seq<char>) -> bool {
    s.len() == 6 && (forall|i: int| 0 <= i < 6 ==> is_hex_digit(#[trigger] s[i]))
}

/// The `k`-th byte (0 = red, 1 = green, 2 = blue) encoded by a
/// well-formed color string.
pub open spec fn color_byte(s: Seq<char>, k: int) -> int {
    16 * hex_digit_value(s[2 * k]) + hex_digit_value(s[2 * k + 1])
}

fn hex_digit(c: char) -> (r: Option<u8>)
    ensures
        match r {
            Some(v) => is_hex_digit(c) && v == hex_digit_value(c),
            None => !is_hex_digit(c),
        },
{
    match c {
        '0' => Some(0),
        '1' => Some(1),
        '2' => Some(2),
        '3' => Some(3),
        '4' => Some(4),
        '5' => Some(5),
        '6' => Some(6),
        '7' => Some(7),
        '8' => Some(8),
        '9' => Some(9),
        'a' => Some(10),
        'b' => Some(11),
        'c' => Some(12),
        'd' => Some(13),
        'e' => Some(14),
        'f' => Some(15),
        'A' => Some(10),
        'B' => Some(11),
        'C' => Some(12),
        'D' => Some(13),
        'E' => Some(14),
        'F' => Some(15),
        _ => None,
    }
}

/// Decodes a six-hex-character color string into its red, green and blue
/// bytes; `None` exactly when the string is malformed.
pub fn decode_color(s: &str) -> (r: Option<(u8, u8, u8)>)
    ensures
        match r {
            Some(t) => color_string_ok(s@) && t.0 == color_byte(s@, 0) && t.1 == color_byte(
                s@,
                1,
            ) && t.2 == color_byte(s@, 2),
            None => !color_string_ok(s@),
        },
{
    if s.unicode_len() != 6 {
        return None;
    }
    let d0 = match hex_digit(s.get_char(0)) {
        Some(v) => v,
        None => { return None; },
    };
    let d1 = match hex_digit(s.get_char(1)) {
        Some(v) => v,
        None => { return None; },
    };
    let d2 = match hex_digit(s.get_char(2)) {
        Some(v) => v,
        None => { return None; },
    };
    let d3 = match hex_digit(s.get_char(3)) {
        Some(v) => v,
        None => { return None; },
    };
    let d4 = match hex_digit(s.get_char(4)) {
        Some(v) => v,
        None => { return None; },
    };
    let d5 = match hex_digit(s.get_char(5)) {
        Some(v) => v,
        None => { return None; },
    };
    Some((16 * d0 + d1, 16 * d2 + d3, 16 * d4 + d5))
}

} // verus!
