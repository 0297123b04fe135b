//! Text in terminal colors.

use super::rgb::RGB;
use vstd::prelude::*;
use vstd::utf8::{decode_utf8, valid_utf8};

verus! {

/// The decimal digit for a number below ten.
pub open spec fn digit(d: nat) -> char {
    if d == 0 {
        '0'
    } else if d == 1 {
        '1'
    } else if d == 2 {
        '2'
    } else if d == 3 {
        '3'
    } else if d == 4 {
        '4'
    } else if d == 5 {
        '5'
    } else if d == 6 {
        '6'
    } else if d == 7 {
        '7'
    } else if d == 8 {
        '8'
    } else {
        '9'
    }
}

/// A number in decimal, without leading zeros.
pub open spec fn decimal(n: nat) -> Seq<char>
    decreases n,
{
    if n < 10 {
        seq![digit(n)]
    } else {
        decimal(n / 10).push(digit(n % 10))
    }
}

/// The escape sequence that sets the foreground color.
pub open spec fn color_on(rgb: RGB) -> Seq<char> {
    seq!['\x1B', '[', '3', '8', ';', '2', ';'] + decimal(rgb.r as nat) + seq![';'] + decimal(
        rgb.g as nat,
    ) + seq![';'] + decimal(rgb.b as nat) + seq!['m']
}

/// The escape sequence that resets every style.
pub open spec fn color_off() -> Seq<char> {
    seq!['\x1B', '[', '0', 'm']
}

/// `text` between the escape sequence that sets the foreground color and
/// the one that resets it.
pub open spec fn painted(text: Seq<char>, rgb: RGB) -> Seq<char> {
    color_on(rgb) + text + color_off()
}

/// Paints text with `ansi_term`'s `Colour::RGB(..).paint(..)` and renders
/// the result with `to_string`. For a style that has a foreground color
/// and nothing else, `ansi_term` writes `ESC [ 38;2;r;g;b m`, the three
/// numbers in decimal, then the text as it is, then the reset `ESC [ 0 m`.
#[verifier::external_body]
pub(crate) fn ansi_paint(text: &str, rgb: RGB) -> (s: String)
    ensures
        s@ == painted(text@, rgb),
{
    ansi_term::Colour::RGB(rgb.r, rgb.g, rgb.b).paint(text).to_string()
}

/// Reads four bytes as text with `std::str::from_utf8`, which succeeds
/// exactly on well-formed UTF-8 and then yields the characters that the
/// bytes encode.
#[verifier::external_body]
pub(crate) fn text_of(bytes: &[u8; 4]) -> (r: Option<&str>)
    ensures
        r.is_some() == valid_utf8(bytes@),
        r matches Some(text) ==> text@ == decode_utf8(bytes@),
{
    match std::str::from_utf8(bytes) {
        Ok(text) => Some(text),
        Err(_) => None,
    }
}

/// Four bytes that hold a character of the block `U+2580` to `U+25BF`
/// followed by a space are well-formed UTF-8.
pub proof fn lemma_block_glyph(bytes: Seq<u8>)
    requires
        bytes.len() == 4,
        bytes[0] == 0xE2,
        bytes[1] == 0x96,
        0x80 <= bytes[2] <= 0xBF,
        bytes[3] == 0x20,
    ensures
        valid_utf8(bytes),
{
    let x = bytes[2];
    assert(0x800u32 <= ((((0xE2u8 & 0x0Fu8) as u32) << 12u32) | (((0x96u8 & 0x3fu8) as u32) << 6u32)
        | ((x & 0x3fu8) as u32)) < 0xD800u32) by (bit_vector);
    assert(((0x20u8 & 0x7Fu8) as u32) == 0x20u32) by (bit_vector);
    let tail = bytes.subrange(3, 4);
    assert(tail.len() == 1 && tail[0] == 0x20);
    let end = tail.subrange(1, 1);
    assert(end.len() == 0);
    assert(valid_utf8(end));
    assert(vstd::utf8::valid_first_scalar(tail));
    assert(vstd::utf8::pop_first_scalar(tail) == end);
    assert(valid_utf8(tail));
    assert(vstd::utf8::valid_first_scalar(bytes));
    assert(vstd::utf8::pop_first_scalar(bytes) == tail);
}

} // verus!
