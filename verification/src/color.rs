//! RGBA colors: construction, hex notation and scaling.

use vstd::prelude::*;
use vstd::string::{StringExecFns, StringSliceAdditionalSpecFns};
use vstd::utf8::{encode_utf8, is_ascii_chars, is_ascii_chars_encode_utf8};
use crate::error::Error;

verus! {

/// An RGBA color. Every channel, alpha included, ranges over `0..=255`.
#[derive(Clone, Copy, Debug, PartialEq, Eq, Structural)]
pub struct Color {
    pub red: u8,
    pub green: u8,
    pub blue: u8,
    pub alpha: u8,
}

/// `channel * level / 255`, rounded down: a channel scaled by the fraction
/// `level / 255`.
pub open spec fn scale_channel(channel: u8, level: u8) -> u8 {
    (channel as int * level as int / 255) as u8
}

/// A color with red, green and blue scaled by `level / 255`, rounding down;
/// alpha is kept.
pub open spec fn scaled_color(color: Color, level: u8) -> Color {
    Color {
        red: scale_channel(color.red, level),
        green: scale_channel(color.green, level),
        blue: scale_channel(color.blue, level),
        alpha: color.alpha,
    }
}

/// Scaling by the factor one, level 255, changes nothing; scaling by the
/// factor zero, level 0, clears red, green and blue and keeps alpha.
pub proof fn scaling_by_one_and_by_zero(color: Color)
    ensures
        scaled_color(color, 255) == color,
        scaled_color(color, 0) == (Color { red: 0, green: 0, blue: 0, alpha: color.alpha }),
{
}

/// Why a string is not a hex color.
#[derive(Clone, Copy, Debug, PartialEq, Eq, Structural)]
pub enum HexFault {
    /// The string is neither 7 nor 9 bytes long.
    Length,
    /// The string does not start with `#`.
    Marker,
    /// A byte after the first is not a hexadecimal digit.
    Digit,
}

/// Whether `b` is one of `0-9`, `A-F`, `a-f`.
pub open spec fn is_hex_digit(b: u8) -> bool {
    (0x30 <= b <= 0x39) || (0x41 <= b <= 0x46) || (0x61 <= b <= 0x66)
}

/// The value of a hexadecimal digit.
pub open spec fn hex_digit_value(b: u8) -> int {
    if b <= 0x39 {
        b - 0x30
    } else if b <= 0x46 {
        b - 0x41 + 10
    } else {
        b - 0x61 + 10
    }
}

/// The value of the two hexadecimal digits at `at` and `at + 1`.
pub open spec fn hex_byte(bytes: Seq<u8>, at: int) -> int {
    16 * hex_digit_value(bytes[at]) + hex_digit_value(bytes[at + 1])
}

/// The first reason, if any, for which `bytes` is not a hex color: the length
/// is checked first, then the leading `#`, then the digits.
pub open spec fn hex_fault(bytes: Seq<u8>) -> Option<HexFault> {
    if bytes.len() != 7 && bytes.len() != 9 {
        Some(HexFault::Length)
    } else if bytes[0] != 0x23 {
        Some(HexFault::Marker)
    } else if exists|i: int| 1 <= i < bytes.len() && !is_hex_digit(#[trigger] bytes[i]) {
        Some(HexFault::Digit)
    } else {
        None
    }
}

/// The color that a well-formed hex string denotes: `#rrggbb` is opaque,
/// `#rrggbbaa` carries its own alpha.
pub open spec fn hex_color(bytes: Seq<u8>) -> Color {
    Color {
        red: hex_byte(bytes, 1) as u8,
        green: hex_byte(bytes, 3) as u8,
        blue: hex_byte(bytes, 5) as u8,
        alpha: if bytes.len() == 9 {
            hex_byte(bytes, 7) as u8
        } else {
            255
        },
    }
}

/// The explanation for each fault as the error holds it.
pub open spec fn reason_of(fault: HexFault) -> &'static str {
    match fault {
        HexFault::Length => "length must be 7 or 9",
        HexFault::Marker => "first char must be #",
        HexFault::Digit => "all characters but first must be hex",
    }
}

/// The explanation that an error carries for each fault, as text.
pub open spec fn fault_reason(fault: HexFault) -> Seq<char> {
    reason_of(fault)@
}

/// What [`Color::hex`] returns for a string with the given characters and
/// UTF-8 bytes.
pub open spec fn hex_outcome(chars: Seq<char>, bytes: Seq<u8>, result: Result<Color, Error>) -> bool {
    match hex_fault(bytes) {
        None => result == Ok::<Color, Error>(hex_color(bytes)),
        Some(fault) => result matches Err(Error::InvalidColorString(text, reason))
            && text@ == chars && reason@ == fault_reason(fault),
    }
}

/// The lower case hexadecimal digit for a value below 16.
pub open spec fn hex_digit(value: int) -> u8 {
    if value < 10 {
        (0x30 + value) as u8
    } else {
        (0x61 + value - 10) as u8
    }
}

/// A color in hex notation: `#`, then two lower case digits each for red,
/// green, blue and alpha.
pub open spec fn hex_text(color: Color) -> Seq<u8> {
    seq![
        0x23u8,
        hex_digit(color.red as int / 16),
        hex_digit(color.red as int % 16),
        hex_digit(color.green as int / 16),
        hex_digit(color.green as int % 16),
        hex_digit(color.blue as int / 16),
        hex_digit(color.blue as int % 16),
        hex_digit(color.alpha as int / 16),
        hex_digit(color.alpha as int % 16),
    ]
}

/// A byte with an upper case letter turned into the lower case one.
pub open spec fn lowered(b: u8) -> u8 {
    if 0x41 <= b <= 0x5A {
        (b + 0x20) as u8
    } else {
        b
    }
}

/// A hex color in its long form: one of seven bytes gets the alpha `ff`.
pub open spec fn long_form(bytes: Seq<u8>) -> Seq<u8> {
    if bytes.len() == 7 {
        bytes + seq![0x66u8, 0x66u8]
    } else {
        bytes
    }
}

/// The hex notation of any color is a well-formed hex color, and parsing it
/// gives the color back.
pub proof fn hex_text_parses_back(color: Color)
    ensures
        hex_fault(hex_text(color)) is None,
        hex_color(hex_text(color)) == color,
{
    let text = hex_text(color);
    assert(text.len() == 9);
    assert forall|i: int| 1 <= i < text.len() implies is_hex_digit(#[trigger] text[i]) by {}
}

proof fn digits_write_back(high: u8, low: u8)
    requires
        is_hex_digit(high),
        is_hex_digit(low),
    ensures
        0 <= 16 * hex_digit_value(high) + hex_digit_value(low) < 256,
        hex_digit((16 * hex_digit_value(high) + hex_digit_value(low)) / 16) == lowered(high),
        hex_digit((16 * hex_digit_value(high) + hex_digit_value(low)) % 16) == lowered(low),
{
    let h = hex_digit_value(high);
    let l = hex_digit_value(low);
    assert(0 <= h < 16 && 0 <= l < 16);
    assert((16 * h + l) / 16 == h);
    assert((16 * h + l) % 16 == l);
    assert(hex_digit(h) == lowered(high));
    assert(hex_digit(l) == lowered(low));
}

/// Parsing a well-formed hex color and writing the result in hex notation
/// gives the string back in its long form and in lower case: the eight digits
/// are the same but for the case of the letters.
pub proof fn hex_round_trip(bytes: Seq<u8>)
    requires
        hex_fault(bytes) is None,
    ensures
        hex_text(hex_color(bytes)) == long_form(bytes).map_values(|b: u8| lowered(b)),
{
    let color = hex_color(bytes);
    let back = hex_text(color);
    let expected = long_form(bytes).map_values(|b: u8| lowered(b));
    assert(is_hex_digit(bytes[1]) && is_hex_digit(bytes[2]) && is_hex_digit(bytes[3])
        && is_hex_digit(bytes[4]) && is_hex_digit(bytes[5]) && is_hex_digit(bytes[6]));
    digits_write_back(bytes[1], bytes[2]);
    digits_write_back(bytes[3], bytes[4]);
    digits_write_back(bytes[5], bytes[6]);
    assert(color.red == hex_byte(bytes, 1));
    assert(color.green == hex_byte(bytes, 3));
    assert(color.blue == hex_byte(bytes, 5));
    if bytes.len() == 9 {
        assert(is_hex_digit(bytes[7]) && is_hex_digit(bytes[8]));
        digits_write_back(bytes[7], bytes[8]);
        assert(color.alpha == hex_byte(bytes, 7));
    } else {
        assert(color.alpha == 255);
        assert(255int / 16 == 15 && 255int % 16 == 15);
    }
    assert(back.len() == 9 && expected.len() == 9);
    assert(expected[0] == 0x23);
    assert(back[1] == expected[1]);
    assert(back[2] == expected[2]);
    assert(back[3] == expected[3]);
    assert(back[4] == expected[4]);
    assert(back[5] == expected[5]);
    assert(back[6] == expected[6]);
    assert(back[7] == expected[7]);
    assert(back[8] == expected[8]);
    assert(back =~= expected);
}

fn digit_value(b: u8) -> (v: u8)
    requires
        is_hex_digit(b),
    ensures
        v == hex_digit_value(b),
        v < 16,
{
    if b <= 0x39 {
        b - 0x30
    } else if b <= 0x46 {
        b - 0x41 + 10
    } else {
        b - 0x61 + 10
    }
}

fn digit_text(value: u8) -> (text: &'static str)
    requires
        value < 16,
    ensures
        text@ == seq![hex_digit(value as int) as char],
{
    proof {
        reveal_strlit("0");
        reveal_strlit("1");
        reveal_strlit("2");
        reveal_strlit("3");
        reveal_strlit("4");
        reveal_strlit("5");
        reveal_strlit("6");
        reveal_strlit("7");
        reveal_strlit("8");
        reveal_strlit("9");
        reveal_strlit("a");
        reveal_strlit("b");
        reveal_strlit("c");
        reveal_strlit("d");
        reveal_strlit("e");
        reveal_strlit("f");
    }
    let text = match value {
        0 => "0",
        1 => "1",
        2 => "2",
        3 => "3",
        4 => "4",
        5 => "5",
        6 => "6",
        7 => "7",
        8 => "8",
        9 => "9",
        10 => "a",
        11 => "b",
        12 => "c",
        13 => "d",
        14 => "e",
        _ => "f",
    };
    assert(text@ =~= seq![hex_digit(value as int) as char]);
    text
}

fn is_digit(b: u8) -> (r: bool)
    ensures
        r == is_hex_digit(b),
{
    (0x30 <= b && b <= 0x39) || (0x41 <= b && b <= 0x46) || (0x61 <= b && b <= 0x66)
}

fn scale_by(channel: u8, level: u8) -> (result: u8)
    ensures
        result == scale_channel(channel, level),
{
    assert(channel as int * level as int <= 255 * 255) by (nonlinear_arith)
        requires
            channel <= 255,
            level <= 255,
    ;
    let product: u32 = channel as u32 * level as u32;
    (product / 255) as u8
}

impl Color {
    /// Parses `#rrggbb` or `#rrggbbaa`, in either letter case.
    pub fn hex(color_string: &str) -> (result: Result<Color, Error>)
        ensures
            hex_outcome(color_string@, color_string.spec_bytes(), result),
    {
        let bytes = color_string.as_bytes();
        let n = bytes.len();
        if n != 7 && n != 9 {
            return Err(Error::InvalidColorString(color_string.to_owned(), "length must be 7 or 9"));
        }
        if bytes[0] != 0x23 {
            return Err(Error::InvalidColorString(color_string.to_owned(), "first char must be #"));
        }
        let mut i: usize = 1;
        while i < n
            invariant
                1 <= i <= n,
                n == bytes@.len(),
                n == 7 || n == 9,
                bytes@ == color_string.spec_bytes(),
                bytes@[0] == 0x23,
                forall|j: int| 1 <= j < i ==> is_hex_digit(#[trigger] bytes@[j]),
            decreases n - i,
        {
            if !is_digit(bytes[i]) {
                assert(!is_hex_digit(bytes@[i as int]));
                return Err(
                    Error::InvalidColorString(
                        color_string.to_owned(),
                        "all characters but first must be hex",
                    ),
                );
            }
            i += 1;
        }
        let red = 16 * digit_value(bytes[1]) + digit_value(bytes[2]);
        let green = 16 * digit_value(bytes[3]) + digit_value(bytes[4]);
        let blue = 16 * digit_value(bytes[5]) + digit_value(bytes[6]);
        let alpha = if n == 9 {
            16 * digit_value(bytes[7]) + digit_value(bytes[8])
        } else {
            255
        };
        Ok(Color { red, green, blue, alpha })
    }

    /// The color in hex notation, `#rrggbbaa` in lower case.
    pub fn to_hex(&self) -> (text: String)
        ensures
            encode_utf8(text@) == hex_text(*self),
    {
        let mut text = String::from_str("#");
        proof {
            reveal_strlit("#");
        }
        text.append(digit_text(self.red / 16));
        text.append(digit_text(self.red % 16));
        text.append(digit_text(self.green / 16));
        text.append(digit_text(self.green % 16));
        text.append(digit_text(self.blue / 16));
        text.append(digit_text(self.blue % 16));
        text.append(digit_text(self.alpha / 16));
        text.append(digit_text(self.alpha % 16));
        proof {
            assert(text@.len() == 9);
            assert(is_ascii_chars(text@));
            is_ascii_chars_encode_utf8(text@);
            assert(encode_utf8(text@) =~= hex_text(*self));
        }
        text
    }

    /// Scales red, green and blue by `level / 255`, rounding down, and keeps
    /// alpha: level 255 is the factor one, level 0 the factor zero.
    pub fn scaled(self, level: u8) -> (result: Color)
        ensures
            result == scaled_color(self, level),
    {
        Color {
            red: scale_by(self.red, level),
            green: scale_by(self.green, level),
            blue: scale_by(self.blue, level),
            alpha: self.alpha,
        }
    }
}

impl From<(u8, u8, u8)> for Color {
    /// An opaque color from red, green and blue.
    fn from(rgb: (u8, u8, u8)) -> (color: Color)
        ensures
            color == (Color { red: rgb.0, green: rgb.1, blue: rgb.2, alpha: 255 }),
    {
        Color { red: rgb.0, green: rgb.1, blue: rgb.2, alpha: 255 }
    }
}

impl vstd::std_specs::convert::FromSpecImpl<(u8, u8, u8)> for Color {
    open spec fn obeys_from_spec() -> bool {
        true
    }

    open spec fn from_spec(rgb: (u8, u8, u8)) -> Color {
        Color { red: rgb.0, green: rgb.1, blue: rgb.2, alpha: 255 }
    }
}

impl From<(u8, u8, u8, u8)> for Color {
    /// A color from red, green, blue and alpha.
    fn from(rgba: (u8, u8, u8, u8)) -> (color: Color)
        ensures
            color == (Color { red: rgba.0, green: rgba.1, blue: rgba.2, alpha: rgba.3 }),
    {
        Color { red: rgba.0, green: rgba.1, blue: rgba.2, alpha: rgba.3 }
    }
}

impl vstd::std_specs::convert::FromSpecImpl<(u8, u8, u8, u8)> for Color {
    open spec fn obeys_from_spec() -> bool {
        true
    }

    open spec fn from_spec(rgba: (u8, u8, u8, u8)) -> Color {
        Color { red: rgba.0, green: rgba.1, blue: rgba.2, alpha: rgba.3 }
    }
}

impl TryFrom<&str> for Color {
    type Error = Error;

    /// Parses a hex color as [`Color::hex`] does.
    fn try_from(color_string: &str) -> (result: Result<Color, Error>)
        ensures
            hex_outcome(color_string@, color_string.spec_bytes(), result),
    {
        Color::hex(color_string)
    }
}

impl vstd::std_specs::convert::TryFromSpecImpl<&str> for Color {
    /// The error holds a `String`, and no specification can say which one a
    /// call returns, only what it reads as: what `try_from` returns is stated
    /// by its own `ensures`.
    open spec fn obeys_try_from_spec() -> bool {
        false
    }

    /// The color of a well-formed string; for any other, an error that holds
    /// some string that reads as the given one, with the reason of the fault.
    open spec fn try_from_spec(color_string: &str) -> Result<Color, Error> {
        match hex_fault(color_string.spec_bytes()) {
            None => Ok(hex_color(color_string.spec_bytes())),
            Some(fault) => Err(
                Error::InvalidColorString(
                    choose|text: String| text@ == color_string@,
                    reason_of(fault),
                ),
            ),
        }
    }
}

} // verus!
