//! The pixel font of pre-generated CAPTCHA images.

use vstd::prelude::*;

verus! {

/// A character with ASCII letters upper-cased, as `char::to_ascii_uppercase` does.
pub open spec fn ascii_upper(c: char) -> char {
    if 'a' <= c && c <= 'z' { ((c as u32) - 32) as char } else { c }
}

/// The 5-by-7 glyph of an upper-case letter or digit, one row per entry
/// and the leftmost pixel in bit 4; other characters are blank.
pub open spec fn glyph(c: char) -> Seq<u8> {
    if c == 'A' { seq![0b01110u8, 0b10001u8, 0b10001u8, 0b11111u8, 0b10001u8, 0b10001u8, 0b10001u8] }
    else     if c == 'B' { seq![0b11110u8, 0b10001u8, 0b10001u8, 0b11110u8, 0b10001u8, 0b10001u8, 0b11110u8] }
    else     if c == 'C' { seq![0b01110u8, 0b10001u8, 0b10000u8, 0b10000u8, 0b10000u8, 0b10001u8, 0b01110u8] }
    else     if c == 'D' { seq![0b11110u8, 0b10001u8, 0b10001u8, 0b10001u8, 0b10001u8, 0b10001u8, 0b11110u8] }
    else     if c == 'E' { seq![0b11111u8, 0b10000u8, 0b10000u8, 0b11110u8, 0b10000u8, 0b10000u8, 0b11111u8] }
    else     if c == 'F' { seq![0b11111u8, 0b10000u8, 0b10000u8, 0b11110u8, 0b10000u8, 0b10000u8, 0b10000u8] }
    else     if c == 'G' { seq![0b01110u8, 0b10001u8, 0b10000u8, 0b10111u8, 0b10001u8, 0b10001u8, 0b01110u8] }
    else     if c == 'H' { seq![0b10001u8, 0b10001u8, 0b10001u8, 0b11111u8, 0b10001u8, 0b10001u8, 0b10001u8] }
    else     if c == 'J' { seq![0b00111u8, 0b00010u8, 0b00010u8, 0b00010u8, 0b00010u8, 0b10010u8, 0b01100u8] }
    else     if c == 'K' { seq![0b10001u8, 0b10010u8, 0b10100u8, 0b11000u8, 0b10100u8, 0b10010u8, 0b10001u8] }
    else     if c == 'L' { seq![0b10000u8, 0b10000u8, 0b10000u8, 0b10000u8, 0b10000u8, 0b10000u8, 0b11111u8] }
    else     if c == 'M' { seq![0b10001u8, 0b11011u8, 0b10101u8, 0b10101u8, 0b10001u8, 0b10001u8, 0b10001u8] }
    else     if c == 'N' { seq![0b10001u8, 0b11001u8, 0b10101u8, 0b10011u8, 0b10001u8, 0b10001u8, 0b10001u8] }
    else     if c == 'P' { seq![0b11110u8, 0b10001u8, 0b10001u8, 0b11110u8, 0b10000u8, 0b10000u8, 0b10000u8] }
    else     if c == 'Q' { seq![0b01110u8, 0b10001u8, 0b10001u8, 0b10001u8, 0b10101u8, 0b10010u8, 0b01101u8] }
    else     if c == 'R' { seq![0b11110u8, 0b10001u8, 0b10001u8, 0b11110u8, 0b10100u8, 0b10010u8, 0b10001u8] }
    else     if c == 'S' { seq![0b01110u8, 0b10001u8, 0b10000u8, 0b01110u8, 0b00001u8, 0b10001u8, 0b01110u8] }
    else     if c == 'T' { seq![0b11111u8, 0b00100u8, 0b00100u8, 0b00100u8, 0b00100u8, 0b00100u8, 0b00100u8] }
    else     if c == 'U' { seq![0b10001u8, 0b10001u8, 0b10001u8, 0b10001u8, 0b10001u8, 0b10001u8, 0b01110u8] }
    else     if c == 'V' { seq![0b10001u8, 0b10001u8, 0b10001u8, 0b10001u8, 0b10001u8, 0b01010u8, 0b00100u8] }
    else     if c == 'W' { seq![0b10001u8, 0b10001u8, 0b10001u8, 0b10101u8, 0b10101u8, 0b11011u8, 0b10001u8] }
    else     if c == 'X' { seq![0b10001u8, 0b10001u8, 0b01010u8, 0b00100u8, 0b01010u8, 0b10001u8, 0b10001u8] }
    else     if c == 'Y' { seq![0b10001u8, 0b10001u8, 0b01010u8, 0b00100u8, 0b00100u8, 0b00100u8, 0b00100u8] }
    else     if c == 'Z' { seq![0b11111u8, 0b00001u8, 0b00010u8, 0b00100u8, 0b01000u8, 0b10000u8, 0b11111u8] }
    else     if c == '2' { seq![0b01110u8, 0b10001u8, 0b00001u8, 0b00010u8, 0b00100u8, 0b01000u8, 0b11111u8] }
    else     if c == '3' { seq![0b01110u8, 0b10001u8, 0b00001u8, 0b00110u8, 0b00001u8, 0b10001u8, 0b01110u8] }
    else     if c == '4' { seq![0b00010u8, 0b00110u8, 0b01010u8, 0b10010u8, 0b11111u8, 0b00010u8, 0b00010u8] }
    else     if c == '5' { seq![0b11111u8, 0b10000u8, 0b11110u8, 0b00001u8, 0b00001u8, 0b10001u8, 0b01110u8] }
    else     if c == '6' { seq![0b01110u8, 0b10000u8, 0b10000u8, 0b11110u8, 0b10001u8, 0b10001u8, 0b01110u8] }
    else     if c == '7' { seq![0b11111u8, 0b00001u8, 0b00010u8, 0b00100u8, 0b01000u8, 0b01000u8, 0b01000u8] }
    else     if c == '8' { seq![0b01110u8, 0b10001u8, 0b10001u8, 0b01110u8, 0b10001u8, 0b10001u8, 0b01110u8] }
    else     if c == '9' { seq![0b01110u8, 0b10001u8, 0b10001u8, 0b01111u8, 0b00001u8, 0b00001u8, 0b01110u8] }
    else { seq![0u8, 0u8, 0u8, 0u8, 0u8, 0u8, 0u8] }
}

/// The glyph of a character, upper-cased first.
pub fn get_char_pattern(c: char) -> (r: [u8; 7])
    ensures
        r@ == glyph(ascii_upper(c)),
{
    let u = if 'a' <= c && c <= 'z' { ((c as u32) - 32) as u8 as char } else { c };
    proof {
        if 'a' <= c && c <= 'z' {
            assert(u == ascii_upper(c));
        }
    }
    match u {
        'A' => [0b01110, 0b10001, 0b10001, 0b11111, 0b10001, 0b10001, 0b10001],
        'B' => [0b11110, 0b10001, 0b10001, 0b11110, 0b10001, 0b10001, 0b11110],
        'C' => [0b01110, 0b10001, 0b10000, 0b10000, 0b10000, 0b10001, 0b01110],
        'D' => [0b11110, 0b10001, 0b10001, 0b10001, 0b10001, 0b10001, 0b11110],
        'E' => [0b11111, 0b10000, 0b10000, 0b11110, 0b10000, 0b10000, 0b11111],
        'F' => [0b11111, 0b10000, 0b10000, 0b11110, 0b10000, 0b10000, 0b10000],
        'G' => [0b01110, 0b10001, 0b10000, 0b10111, 0b10001, 0b10001, 0b01110],
        'H' => [0b10001, 0b10001, 0b10001, 0b11111, 0b10001, 0b10001, 0b10001],
        'J' => [0b00111, 0b00010, 0b00010, 0b00010, 0b00010, 0b10010, 0b01100],
        'K' => [0b10001, 0b10010, 0b10100, 0b11000, 0b10100, 0b10010, 0b10001],
        'L' => [0b10000, 0b10000, 0b10000, 0b10000, 0b10000, 0b10000, 0b11111],
        'M' => [0b10001, 0b11011, 0b10101, 0b10101, 0b10001, 0b10001, 0b10001],
        'N' => [0b10001, 0b11001, 0b10101, 0b10011, 0b10001, 0b10001, 0b10001],
        'P' => [0b11110, 0b10001, 0b10001, 0b11110, 0b10000, 0b10000, 0b10000],
        'Q' => [0b01110, 0b10001, 0b10001, 0b10001, 0b10101, 0b10010, 0b01101],
        'R' => [0b11110, 0b10001, 0b10001, 0b11110, 0b10100, 0b10010, 0b10001],
        'S' => [0b01110, 0b10001, 0b10000, 0b01110, 0b00001, 0b10001, 0b01110],
        'T' => [0b11111, 0b00100, 0b00100, 0b00100, 0b00100, 0b00100, 0b00100],
        'U' => [0b10001, 0b10001, 0b10001, 0b10001, 0b10001, 0b10001, 0b01110],
        'V' => [0b10001, 0b10001, 0b10001, 0b10001, 0b10001, 0b01010, 0b00100],
        'W' => [0b10001, 0b10001, 0b10001, 0b10101, 0b10101, 0b11011, 0b10001],
        'X' => [0b10001, 0b10001, 0b01010, 0b00100, 0b01010, 0b10001, 0b10001],
        'Y' => [0b10001, 0b10001, 0b01010, 0b00100, 0b00100, 0b00100, 0b00100],
        'Z' => [0b11111, 0b00001, 0b00010, 0b00100, 0b01000, 0b10000, 0b11111],
        '2' => [0b01110, 0b10001, 0b00001, 0b00010, 0b00100, 0b01000, 0b11111],
        '3' => [0b01110, 0b10001, 0b00001, 0b00110, 0b00001, 0b10001, 0b01110],
        '4' => [0b00010, 0b00110, 0b01010, 0b10010, 0b11111, 0b00010, 0b00010],
        '5' => [0b11111, 0b10000, 0b11110, 0b00001, 0b00001, 0b10001, 0b01110],
        '6' => [0b01110, 0b10000, 0b10000, 0b11110, 0b10001, 0b10001, 0b01110],
        '7' => [0b11111, 0b00001, 0b00010, 0b00100, 0b01000, 0b01000, 0b01000],
        '8' => [0b01110, 0b10001, 0b10001, 0b01110, 0b10001, 0b10001, 0b01110],
        '9' => [0b01110, 0b10001, 0b10001, 0b01111, 0b00001, 0b00001, 0b01110],
        _ => [0, 0, 0, 0, 0, 0, 0],
    }
}

} // verus!
