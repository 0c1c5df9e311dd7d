//! `#RRGGBB` notation for 8-bit RGB colours.
use vstd::prelude::*;
use vstd::string::StringSliceAdditionalSpecFns;
use vstd::utf8::{encode_utf8, is_ascii_chars};

use crate::text::string_push;

verus! {

broadcast use vstd::utf8::is_ascii_chars_encode_utf8;

/// The upper-case hexadecimal digit of a value below 16.
pub open spec fn hex_digit(d: int) -> char
    recommends
        0 <= d < 16,
{
    if d < 10 {
        (48 + d) as char
    } else {
        (55 + d) as char
    }
}

/// `#RRGGBB` with upper-case digits, two per channel.
pub open spec fn hex_string(r: u8, g: u8, b: u8) -> Seq<char> {
    seq![
        '#',
        hex_digit(r as int / 16),
        hex_digit(r as int % 16),
        hex_digit(g as int / 16),
        hex_digit(g as int % 16),
        hex_digit(b as int / 16),
        hex_digit(b as int % 16),
    ]
}

/// The value of one byte read as a base-16 digit (`0-9`, `a-f`, `A-F`).
pub open spec fn hex_value(c: u8) -> Option<u8> {
    if 0x30 <= c <= 0x39 {
        Some((c - 0x30) as u8)
    } else if 0x41 <= c <= 0x46 {
        Some((c - 0x37) as u8)
    } else if 0x61 <= c <= 0x66 {
        Some((c - 0x57) as u8)
    } else {
        None
    }
}

/// Two bytes read as a base-16 number: both must be hex digits.
pub open spec fn radix16_pair(c0: u8, c1: u8) -> Option<u8> {
    match (hex_value(c0), hex_value(c1)) {
        (Some(hi), Some(lo)) => Some((hi * 16 + lo) as u8),
        _ => None,
    }
}

/// The colour that the UTF-8 bytes of a `#RRGGBB` string denote: a `#` and
/// then exactly six hex digits, read as three base-16 pairs.
pub open spec fn hex_triple(bytes: Seq<u8>) -> Option<(u8, u8, u8)> {
    if bytes.len() == 7 && bytes[0] == 0x23 {
        match (
            radix16_pair(bytes[1], bytes[2]),
            radix16_pair(bytes[3], bytes[4]),
            radix16_pair(bytes[5], bytes[6]),
        ) {
            (Some(r), Some(g), Some(b)) => Some((r, g, b)),
            _ => None,
        }
    } else {
        None
    }
}

fn hex_digit_char(d: u8) -> (c: char)
    requires
        d < 16,
    ensures
        c == hex_digit(d as int),
{
    if d < 10 {
        (48 + d) as char
    } else {
        (55 + d) as char
    }
}

/// Writes an 8-bit RGB colour as `#RRGGBB`, upper-case.
pub fn to_hex(r: u8, g: u8, b: u8) -> (s: String)
    ensures
        s@ == hex_string(r, g, b),
{
    let mut s = String::new();
    string_push(&mut s, '#');
    string_push(&mut s, hex_digit_char(r / 16));
    string_push(&mut s, hex_digit_char(r % 16));
    string_push(&mut s, hex_digit_char(g / 16));
    string_push(&mut s, hex_digit_char(g % 16));
    string_push(&mut s, hex_digit_char(b / 16));
    string_push(&mut s, hex_digit_char(b % 16));
    assert(s@ =~= hex_string(r, g, b));
    s
}

fn hex_value_of(c: u8) -> (r: Option<u8>)
    ensures
        r == hex_value(c),
{
    if 0x30 <= c && c <= 0x39 {
        Some(c - 0x30)
    } else if 0x41 <= c && c <= 0x46 {
        Some(c - 0x37)
    } else if 0x61 <= c && c <= 0x66 {
        Some(c - 0x57)
    } else {
        None
    }
}

fn radix16_pair_of(c0: u8, c1: u8) -> (r: Option<u8>)
    ensures
        r == radix16_pair(c0, c1),
{
    match (hex_value_of(c0), hex_value_of(c1)) {
        (Some(hi), Some(lo)) => Some(hi * 16 + lo),
        _ => None,
    }
}

/// Reads `#RRGGBB` into its three channels; `None` for anything else, never
/// a crash (a string whose six bytes after `#` are not ASCII has no reading).
pub fn parse_hex(hex: &str) -> (r: Option<(u8, u8, u8)>)
    ensures
        r == hex_triple(hex.spec_bytes()),
{
    let b = hex.as_bytes();
    if b.len() != 7 || b[0] != 0x23 {
        return None;
    }
    let r = match radix16_pair_of(b[1], b[2]) {
        Some(v) => v,
        None => return None,
    };
    let g = match radix16_pair_of(b[3], b[4]) {
        Some(v) => v,
        None => return None,
    };
    let bl = match radix16_pair_of(b[5], b[6]) {
        Some(v) => v,
        None => return None,
    };
    Some((r, g, bl))
}

proof fn lemma_hex_digit_value(d: int)
    requires
        0 <= d < 16,
    ensures
        '\0' <= hex_digit(d) <= '\u{7f}',
        hex_value(hex_digit(d) as u8) == Some(d as u8),
{
}

/// A `#RRGGBB` string is seven characters: `#` and six upper-case hex digits.
pub proof fn lemma_hex_string_shape(r: u8, g: u8, b: u8)
    ensures
        hex_string(r, g, b).len() == 7,
        hex_string(r, g, b)[0] == '#',
        forall|i: int|
            1 <= i < 7 ==> ('0' <= #[trigger] hex_string(r, g, b)[i] <= '9' || 'A' <= hex_string(
                r,
                g,
                b,
            )[i] <= 'F'),
{
}

/// A byte reads as a digit exactly when it is `0-9`, `a-f` or `A-F`; its
/// value is below 16, and a letter reads the same in either case.
pub proof fn lemma_hex_value_laws(c: u8)
    ensures
        hex_value(c) is Some <==> (0x30 <= c <= 0x39 || 0x41 <= c <= 0x46 || 0x61 <= c <= 0x66),
        hex_value(c) matches Some(v) ==> v < 16,
        0x61 <= c <= 0x66 ==> hex_value(c) == hex_value((c - 0x20) as u8),
        0x30 <= c <= 0x39 ==> hex_value(c) == Some((c - 0x30) as u8),
        0x41 <= c <= 0x46 ==> hex_value(c) == Some((c - 0x41 + 10) as u8),
        forall|d: u8| #![trigger radix16_pair(c, d)] radix16_pair(c, d) is Some <==> (hex_value(c) is Some && hex_value(d) is Some),
{
}

/// Every colour written by `to_hex` is ASCII and is read back by `parse_hex`
/// as the same three channels.
pub proof fn lemma_parse_hex_of_to_hex(r: u8, g: u8, b: u8)
    ensures
        is_ascii_chars(hex_string(r, g, b)),
        hex_triple(encode_utf8(hex_string(r, g, b))) == Some((r, g, b)),
{
    let s = hex_string(r, g, b);
    lemma_hex_digit_value(r as int / 16);
    lemma_hex_digit_value(r as int % 16);
    lemma_hex_digit_value(g as int / 16);
    lemma_hex_digit_value(g as int % 16);
    lemma_hex_digit_value(b as int / 16);
    lemma_hex_digit_value(b as int % 16);
    assert(is_ascii_chars(s));
    let e = encode_utf8(s);
    assert(e[1] == s[1] as u8);
    assert(e[2] == s[2] as u8);
    assert(e[3] == s[3] as u8);
    assert(e[4] == s[4] as u8);
    assert(e[5] == s[5] as u8);
    assert(e[6] == s[6] as u8);
    assert(e[0] == s[0] as u8);
}

} // verus!
