//! RGBA colours and parsing of hex colour strings: exactly 6 hex digits
//! (opaque) or 8 hex digits (alpha last), case-insensitive.

use vstd::prelude::*;

verus! {

use vstd::string::StringSliceAdditionalSpecFns;

/// An RGBA colour with 8-bit channels.
#[derive(Clone, Copy, Debug, PartialEq, Eq, Structural)]
pub struct Rgba {
    pub r: u8,
    pub g: u8,
    pub b: u8,
    pub a: u8,
}

/// A fully transparent colour, the margin default when no border colour is
/// supplied.
pub fn transparent() -> (c: Rgba)
    ensures
        c == (Rgba { r: 0u8, g: 0u8, b: 0u8, a: 0u8 }),
{
    Rgba { r: 0, g: 0, b: 0, a: 0 }
}

/// Why a colour string was rejected.
#[derive(Clone, Copy, Debug, PartialEq, Eq, Structural)]
pub enum ColorError {
    /// Not exactly 6 or 8 characters.
    Length,
    /// A character outside `0-9a-fA-F`.
    Digit,
}

/// Whether a byte is an ASCII hex digit.
pub open spec fn is_hex_digit(b: u8) -> bool {
    (48 <= b && b <= 57) || (97 <= b && b <= 102) || (65 <= b && b <= 70)
}

/// The value of an ASCII hex digit.
pub open spec fn hex_val(b: u8) -> u8 {
    if 48 <= b && b <= 57 {
        (b - 48) as u8
    } else if 97 <= b && b <= 102 {
        (b - 87) as u8
    } else if 65 <= b && b <= 70 {
        (b - 55) as u8
    } else {
        0
    }
}

/// Whether every byte of `s` is a hex digit.
pub open spec fn all_hex(s: Seq<u8>) -> bool {
    forall|i: int| 0 <= i < s.len() ==> is_hex_digit(#[trigger] s[i])
}

/// The byte encoded by the `i`-th two-digit group of `s`.
pub open spec fn hex_pair(s: Seq<u8>, i: int) -> u8 {
    (16 * hex_val(s[2 * i]) + hex_val(s[2 * i + 1])) as u8
}

/// What parsing a colour string (as bytes) yields: `None` when the length is
/// not 6 or 8 or some character is not a hex digit; otherwise the channel
/// groups in order, with alpha 255 when absent.
pub open spec fn parse_color(s: Seq<u8>) -> Option<Rgba> {
    if s.len() != 6 && s.len() != 8 {
        None
    } else if !all_hex(s) {
        None
    } else {
        Some(
            Rgba {
                r: hex_pair(s, 0),
                g: hex_pair(s, 1),
                b: hex_pair(s, 2),
                a: if s.len() == 8 {
                    hex_pair(s, 3)
                } else {
                    255
                },
            },
        )
    }
}

/// The value of one hex digit.
fn hex_digit(b: u8) -> (r: u8)
    requires
        is_hex_digit(b),
    ensures
        r == hex_val(b),
        r <= 15,
{
    if 48 <= b && b <= 57 {
        b - 48
    } else if 97 <= b && b <= 102 {
        b - 87
    } else {
        b - 55
    }
}

/// Parses a hex colour string into an RGBA quadruple: exactly 6 digits (alpha
/// defaults to 255) or 8 digits (alpha last); any other length, or a non-hex
/// character, is rejected.
pub fn rgba_string(color: &str) -> (r: Result<Rgba, ColorError>)
    ensures
        match r {
            Ok(c) => parse_color(color.spec_bytes()) == Some(c),
            Err(ColorError::Length) => color.spec_bytes().len() != 6
                && color.spec_bytes().len() != 8,
            Err(ColorError::Digit) => (color.spec_bytes().len() == 6 || color.spec_bytes().len()
                == 8) && !all_hex(color.spec_bytes()),
        },
{
    parse_color_bytes(color.as_bytes())
}

/// Parses a hex colour, given as its byte string.
pub fn parse_color_bytes(b: &[u8]) -> (r: Result<Rgba, ColorError>)
    ensures
        match r {
            Ok(c) => parse_color(b@) == Some(c),
            Err(ColorError::Length) => b@.len() != 6 && b@.len() != 8,
            Err(ColorError::Digit) => (b@.len() == 6 || b@.len() == 8) && !all_hex(b@),
        },
{
    let n = b.len();
    if n != 6 && n != 8 {
        return Err(ColorError::Length);
    }
    let mut i: usize = 0;
    while i < n
        invariant
            n == b@.len(),
            n == 6 || n == 8,
            i <= n,
            forall|j: int| 0 <= j < i ==> is_hex_digit(#[trigger] b@[j]),
        decreases n - i,
    {
        let c = b[i];
        if !((48 <= c && c <= 57) || (97 <= c && c <= 102) || (65 <= c && c <= 70)) {
            return Err(ColorError::Digit);
        }
        i += 1;
    }
    let red = 16 * hex_digit(b[0]) + hex_digit(b[1]);
    let green = 16 * hex_digit(b[2]) + hex_digit(b[3]);
    let blue = 16 * hex_digit(b[4]) + hex_digit(b[5]);
    let alpha = if n == 8 {
        16 * hex_digit(b[6]) + hex_digit(b[7])
    } else {
        255
    };
    Ok(Rgba { r: red, g: green, b: blue, a: alpha })
}

} // verus!
