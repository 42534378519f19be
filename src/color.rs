//! The sixteen-entry palette and the attribute byte built from it.
use vstd::prelude::*;

verus! {

/// One entry of the hardware palette; its numeric value is `color_value`.
#[derive(Debug, Clone, Copy, PartialEq, Eq, Structural)]
pub enum Color {
    Black,
    Blue,
    Green,
    Cyan,
    Red,
    Magenta,
    Brown,
    LightGray,
    DarkGray,
    LightBlue,
    LightGreen,
    LightCyan,
    LightRed,
    Pink,
    Yellow,
    White,
}

/// The four-bit value that the hardware uses for a palette entry.
pub open spec fn color_value(c: Color) -> u8 {
    match c {
        Color::Black => 0,
        Color::Blue => 1,
        Color::Green => 2,
        Color::Cyan => 3,
        Color::Red => 4,
        Color::Magenta => 5,
        Color::Brown => 6,
        Color::LightGray => 7,
        Color::DarkGray => 8,
        Color::LightBlue => 9,
        Color::LightGreen => 10,
        Color::LightCyan => 11,
        Color::LightRed => 12,
        Color::Pink => 13,
        Color::Yellow => 14,
        Color::White => 15,
    }
}

/// The palette entry whose value is `v` (taken modulo 16).
pub open spec fn color_of_value(v: u8) -> Color {
    let n = v % 16;
    if n == 0 { Color::Black }
    else if n == 1 { Color::Blue }
    else if n == 2 { Color::Green }
    else if n == 3 { Color::Cyan }
    else if n == 4 { Color::Red }
    else if n == 5 { Color::Magenta }
    else if n == 6 { Color::Brown }
    else if n == 7 { Color::LightGray }
    else if n == 8 { Color::DarkGray }
    else if n == 9 { Color::LightBlue }
    else if n == 10 { Color::LightGreen }
    else if n == 11 { Color::LightCyan }
    else if n == 12 { Color::LightRed }
    else if n == 13 { Color::Pink }
    else if n == 14 { Color::Yellow }
    else { Color::White }
}

/// The attribute byte for a foreground and a background color:
/// background in the high nibble, foreground in the low one.
pub open spec fn encode(foreground: Color, background: Color) -> u8 {
    (color_value(background) << 4u8) | color_value(foreground)
}

/// The (foreground, background) pair that an attribute byte stands for.
pub open spec fn decode(attribute: u8) -> (Color, Color) {
    (color_of_value(attribute & 0x0f), color_of_value(attribute >> 4u8))
}

pub proof fn lemma_color_value_bound(c: Color)
    ensures
        color_value(c) < 16,
        color_of_value(color_value(c)) == c,
{
}

proof fn lemma_nibbles(f: u8, b: u8)
    requires
        f < 16,
        b < 16,
    ensures
        ((b << 4u8) | f) & 0x0f == f,
        ((b << 4u8) | f) >> 4u8 == b,
        (b << 4u8) | f == 16 * b + f,
{
    assert(((b << 4u8) | f) & 0x0f == f) by (bit_vector)
        requires
            f < 16,
            b < 16,
    ;
    assert(((b << 4u8) | f) >> 4u8 == b) by (bit_vector)
        requires
            f < 16,
            b < 16,
    ;
    assert((b << 4u8) | f == 16 * b + f) by (bit_vector)
        requires
            f < 16,
            b < 16,
    ;
}

/// Decoding an encoded attribute byte gives back the foreground and
/// background colors it was made from, for every pair of palette entries.
pub proof fn lemma_decode_encode(foreground: Color, background: Color)
    ensures
        decode(encode(foreground, background)) == (foreground, background),
{
    lemma_color_value_bound(foreground);
    lemma_color_value_bound(background);
    lemma_nibbles(color_value(foreground), color_value(background));
}

impl Color {
    /// The palette entry's hardware value.
    pub fn value(self) -> (r: u8)
        ensures
            r == color_value(self),
            r < 16,
    {
        match self {
            Color::Black => 0,
            Color::Blue => 1,
            Color::Green => 2,
            Color::Cyan => 3,
            Color::Red => 4,
            Color::Magenta => 5,
            Color::Brown => 6,
            Color::LightGray => 7,
            Color::DarkGray => 8,
            Color::LightBlue => 9,
            Color::LightGreen => 10,
            Color::LightCyan => 11,
            Color::LightRed => 12,
            Color::Pink => 13,
            Color::Yellow => 14,
            Color::White => 15,
        }
    }

    /// The palette entry for a four-bit value; higher bits are ignored.
    pub fn from_value(v: u8) -> (r: Color)
        ensures
            r == color_of_value(v),
    {
        let n: u8 = v % 16;
        if n == 0 { Color::Black }
        else if n == 1 { Color::Blue }
        else if n == 2 { Color::Green }
        else if n == 3 { Color::Cyan }
        else if n == 4 { Color::Red }
        else if n == 5 { Color::Magenta }
        else if n == 6 { Color::Brown }
        else if n == 7 { Color::LightGray }
        else if n == 8 { Color::DarkGray }
        else if n == 9 { Color::LightBlue }
        else if n == 10 { Color::LightGreen }
        else if n == 11 { Color::LightCyan }
        else if n == 12 { Color::LightRed }
        else if n == 13 { Color::Pink }
        else if n == 14 { Color::Yellow }
        else { Color::White }
    }
}

/// An attribute byte: foreground color in the low nibble, background in the
/// high nibble. Every byte is a valid attribute.
#[derive(Debug, Clone, Copy, PartialEq, Eq, Structural)]
pub struct ColorCode(pub u8);

impl ColorCode {
    pub fn new(foreground: Color, background: Color) -> (r: ColorCode)
        ensures
            r.0 == encode(foreground, background),
            r.0 == 16 * color_value(background) + color_value(foreground),
    {
        proof {
            lemma_color_value_bound(foreground);
            lemma_color_value_bound(background);
            lemma_nibbles(color_value(foreground), color_value(background));
        }
        ColorCode((background.value() << 4u8) | foreground.value())
    }

    /// The colors this attribute byte stands for, as (foreground, background).
    pub fn decode(self) -> (r: (Color, Color))
        ensures
            r == decode(self.0),
    {
        (Color::from_value(self.0 & 0x0f), Color::from_value(self.0 >> 4u8))
    }
}

} // verus!
