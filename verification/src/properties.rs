//! The typed-value vocabulary: turns a `(key, value)` string pair into a
//! strongly typed property value, or reports why it cannot.
//!
//! The stylesheet grammar is independent of this vocabulary; the classifier
//! queries it as an oracle. It covers horizontal text alignment and
//! background colors (named colors plus `#RGB`, `#RRGGBB` and `#RRGGBBAA`
//! hexadecimal forms).

use vstd::prelude::*;
use vstd::string::*;
use crate::stylesheet::ColorU;
use crate::stylesheet::CssProperty;
use crate::stylesheet::StyleBackgroundColor;
use crate::stylesheet::StyleTextAlignmentHorz;
use crate::text::str_eq;

verus! {

/// A value that is not valid for its property key; carries the offending text.
#[derive(Debug, Clone, PartialEq, Eq)]
pub struct InvalidValueErr(pub String);

/// Why a `(key, value)` pair has no typed property value.
#[derive(Debug, Clone, PartialEq, Eq)]
pub enum CssParsingError {
    /// The key is not part of the typed-value vocabulary.
    UnsupportedProperty(String),
    /// The value is not valid for the key.
    InvalidValueErr(InvalidValueErr),
}

/// Mathematical view of a `CssParsingError`.
pub enum SpecParsingError {
    UnsupportedProperty(Seq<char>),
    InvalidValue(Seq<char>),
}

impl View for CssParsingError {
    type V = SpecParsingError;

    open spec fn view(&self) -> SpecParsingError {
        match self {
            CssParsingError::UnsupportedProperty(s) => SpecParsingError::UnsupportedProperty(s@),
            CssParsingError::InvalidValueErr(e) => SpecParsingError::InvalidValue(e.0@),
        }
    }
}

/// The named colors the vocabulary knows.
pub open spec fn spec_named_color(s: Seq<char>) -> Option<ColorU> {
    if s == "red"@ {
        Some(ColorU { r: 255, g: 0, b: 0, a: 255 })
    } else if s == "green"@ {
        Some(ColorU { r: 0, g: 128, b: 0, a: 255 })
    } else if s == "blue"@ {
        Some(ColorU { r: 0, g: 0, b: 255, a: 255 })
    } else if s == "black"@ {
        Some(ColorU { r: 0, g: 0, b: 0, a: 255 })
    } else if s == "white"@ {
        Some(ColorU { r: 255, g: 255, b: 255, a: 255 })
    } else {
        None
    }
}

/// Whether `c` is a hexadecimal digit.
pub open spec fn is_hex_digit(c: char) -> bool {
    (48 <= c as u32 <= 57) || (97 <= c as u32 <= 102) || (65 <= c as u32 <= 70)
}

/// The numeric value of a hexadecimal digit.
pub open spec fn hex_val(c: char) -> int {
    if 48 <= c as u32 <= 57 {
        c as u32 - 48
    } else if 97 <= c as u32 <= 102 {
        c as u32 - 87
    } else {
        c as u32 - 55
    }
}

/// Whether every character of `s` is a hexadecimal digit.
pub open spec fn all_hex(s: Seq<char>) -> bool {
    forall|j: int| 0 <= j < s.len() ==> is_hex_digit(s[j])
}

/// The color denoted by a `#`-prefixed hexadecimal form: `#RGB` (each nibble
/// doubled), `#RRGGBB` (alpha 255), or `#RRGGBBAA`.
pub open spec fn spec_hex_color(s: Seq<char>) -> Option<ColorU> {
    if s.len() >= 1 && s[0] == '#' {
        let d = s.subrange(1, s.len() as int);
        if !all_hex(d) {
            None
        } else if d.len() == 3 {
            Some(
                ColorU {
                    r: (17 * hex_val(d[0])) as u8,
                    g: (17 * hex_val(d[1])) as u8,
                    b: (17 * hex_val(d[2])) as u8,
                    a: 255,
                },
            )
        } else if d.len() == 6 {
            Some(
                ColorU {
                    r: (16 * hex_val(d[0]) + hex_val(d[1])) as u8,
                    g: (16 * hex_val(d[2]) + hex_val(d[3])) as u8,
                    b: (16 * hex_val(d[4]) + hex_val(d[5])) as u8,
                    a: 255,
                },
            )
        } else if d.len() == 8 {
            Some(
                ColorU {
                    r: (16 * hex_val(d[0]) + hex_val(d[1])) as u8,
                    g: (16 * hex_val(d[2]) + hex_val(d[3])) as u8,
                    b: (16 * hex_val(d[4]) + hex_val(d[5])) as u8,
                    a: (16 * hex_val(d[6]) + hex_val(d[7])) as u8,
                },
            )
        } else {
            None
        }
    } else {
        None
    }
}

/// The color denoted by `s`: a named color, or a hexadecimal form.
pub open spec fn spec_parse_color(s: Seq<char>) -> Option<ColorU> {
    match spec_named_color(s) {
        Some(c) => Some(c),
        None => spec_hex_color(s),
    }
}

/// The horizontal text alignment denoted by `s`.
pub open spec fn spec_text_align(s: Seq<char>) -> Option<StyleTextAlignmentHorz> {
    if s == "center"@ {
        Some(StyleTextAlignmentHorz::Center)
    } else if s == "left"@ {
        Some(StyleTextAlignmentHorz::Left)
    } else if s == "right"@ {
        Some(StyleTextAlignmentHorz::Right)
    } else {
        None
    }
}

/// What `from_kv` returns: the typed value for a known key and a valid
/// value; `InvalidValue` for a known key and an invalid value; and
/// `UnsupportedProperty` for an unknown key.
pub open spec fn spec_from_kv(key: Seq<char>, value: Seq<char>) -> Result<
    CssProperty,
    SpecParsingError,
> {
    if key == "text-align"@ {
        match spec_text_align(value) {
            Some(t) => Ok(CssProperty::TextAlign(t)),
            None => Err(SpecParsingError::InvalidValue(value)),
        }
    } else if key == "background-color"@ {
        match spec_parse_color(value) {
            Some(c) => Ok(CssProperty::BackgroundColor(StyleBackgroundColor(c))),
            None => Err(SpecParsingError::InvalidValue(value)),
        }
    } else {
        Err(SpecParsingError::UnsupportedProperty(key))
    }
}

/// The value of one hexadecimal digit, or `None` if `c` is not one.
fn hex_digit_val(c: char) -> (r: Option<u8>)
    ensures
        match r {
            Some(v) => is_hex_digit(c) && v == hex_val(c),
            None => !is_hex_digit(c),
        },
{
    let u = c as u32;
    if 48 <= u && u <= 57 {
        Some((u - 48) as u8)
    } else if 97 <= u && u <= 102 {
        Some((u - 87) as u8)
    } else if 65 <= u && u <= 70 {
        Some((u - 55) as u8)
    } else {
        None
    }
}

/// Reads the two hexadecimal digits of `s` at `i` and `i + 1` as one byte.
fn hex_byte(s: &str, i: usize) -> (r: Option<u8>)
    requires
        i + 1 < s@.len(),
    ensures
        match r {
            Some(v) => is_hex_digit(s@[i as int]) && is_hex_digit(s@[i + 1]) && v == 16 * hex_val(
                s@[i as int],
            ) + hex_val(s@[i + 1]),
            None => !(is_hex_digit(s@[i as int]) && is_hex_digit(s@[i + 1])),
        },
{
    let n = s.unicode_len();
    let hi = hex_digit_val(s.get_char(i));
    let lo = hex_digit_val(s.get_char(i + 1));
    match (hi, lo) {
        (Some(h), Some(l)) => Some(16 * h + l),
        _ => None,
    }
}

/// Parses a `#`-prefixed hexadecimal color.
fn parse_hex_color(s: &str) -> (r: Option<ColorU>)
    ensures
        r == spec_hex_color(s@),
{
    let n = s.unicode_len();
    if n == 0 || s.get_char(0) != '#' {
        return None;
    }
    let ghost d = s@.subrange(1, s@.len() as int);
    if n == 4 {
        let h0 = hex_digit_val(s.get_char(1));
        let h1 = hex_digit_val(s.get_char(2));
        let h2 = hex_digit_val(s.get_char(3));
        match (h0, h1, h2) {
            (Some(a), Some(b), Some(c)) => {
                proof {
                    assert(forall|j: int| 0 <= j < d.len() ==> is_hex_digit(d[j]));
                }
                Some(ColorU { r: 17 * a, g: 17 * b, b: 17 * c, a: 255 })
            },
            _ => None,
        }
    } else if n == 7 {
        let b0 = hex_byte(s, 1);
        let b1 = hex_byte(s, 3);
        let b2 = hex_byte(s, 5);
        match (b0, b1, b2) {
            (Some(r0), Some(g0), Some(bl)) => {
                proof {
                    assert(forall|j: int| 0 <= j < d.len() ==> is_hex_digit(d[j]));
                }
                Some(ColorU { r: r0, g: g0, b: bl, a: 255 })
            },
            _ => None,
        }
    } else if n == 9 {
        let b0 = hex_byte(s, 1);
        let b1 = hex_byte(s, 3);
        let b2 = hex_byte(s, 5);
        let b3 = hex_byte(s, 7);
        match (b0, b1, b2, b3) {
            (Some(r0), Some(g0), Some(bl), Some(al)) => {
                proof {
                    assert(forall|j: int| 0 <= j < d.len() ==> is_hex_digit(d[j]));
                }
                Some(ColorU { r: r0, g: g0, b: bl, a: al })
            },
            _ => None,
        }
    } else {
        None
    }
}

/// Parses a color value: a named color, or a hexadecimal form.
fn parse_color(s: &str) -> (r: Option<ColorU>)
    ensures
        r == spec_parse_color(s@),
{
    if str_eq(s, "red") {
        Some(ColorU { r: 255, g: 0, b: 0, a: 255 })
    } else if str_eq(s, "green") {
        Some(ColorU { r: 0, g: 128, b: 0, a: 255 })
    } else if str_eq(s, "blue") {
        Some(ColorU { r: 0, g: 0, b: 255, a: 255 })
    } else if str_eq(s, "black") {
        Some(ColorU { r: 0, g: 0, b: 0, a: 255 })
    } else if str_eq(s, "white") {
        Some(ColorU { r: 255, g: 255, b: 255, a: 255 })
    } else {
        parse_hex_color(s)
    }
}

/// Parses a text alignment value.
fn parse_text_align(s: &str) -> (r: Option<StyleTextAlignmentHorz>)
    ensures
        r == spec_text_align(s@),
{
    if str_eq(s, "center") {
        Some(StyleTextAlignmentHorz::Center)
    } else if str_eq(s, "left") {
        Some(StyleTextAlignmentHorz::Left)
    } else if str_eq(s, "right") {
        Some(StyleTextAlignmentHorz::Right)
    } else {
        None
    }
}

/// Converts a `(key, value)` string pair into a typed property value, or
/// reports exactly why it cannot, as `spec_from_kv` says.
pub fn from_kv(key: &str, value: &str) -> (r: Result<CssProperty, CssParsingError>)
    ensures
        match r {
            Ok(p) => spec_from_kv(key@, value@) == Ok::<CssProperty, SpecParsingError>(p),
            Err(e) => spec_from_kv(key@, value@) == Err::<CssProperty, SpecParsingError>(e@),
        },
{
    if str_eq(key, "text-align") {
        match parse_text_align(value) {
            Some(t) => Ok(CssProperty::TextAlign(t)),
            None => Err(
                CssParsingError::InvalidValueErr(InvalidValueErr(String::from_str(value))),
            ),
        }
    } else if str_eq(key, "background-color") {
        match parse_color(value) {
            Some(c) => Ok(CssProperty::BackgroundColor(StyleBackgroundColor(c))),
            None => Err(
                CssParsingError::InvalidValueErr(InvalidValueErr(String::from_str(value))),
            ),
        }
    } else {
        Err(CssParsingError::UnsupportedProperty(String::from_str(key)))
    }
}

} // verus!
