//! The fcitx `Color`: 16 bits per channel, serialized like
//! `fcitx::Color::toString()`.

use vstd::prelude::*;
use crate::text::{hex2, hex_char, hex_digit_of, push_char, push_hex2};

verus! {

/// A color with 16-bit-per-channel precision, like `fcitx::Color`.
#[derive(Debug, Clone, Copy, PartialEq, Eq)]
pub struct Color {
    /// Red channel.
    pub red: u16,
    /// Green channel.
    pub green: u16,
    /// Blue channel.
    pub blue: u16,
    /// Alpha channel.
    pub alpha: u16,
}

/// The 16-bit channel for an 8-bit one: `c / 255` scaled by 65535 and
/// truncated, which is exactly `257 * c` for every byte.
pub open spec fn widen(c: u8) -> u16 {
    (257 * c) as u16
}

/// The hexadecimal text of a 16-bit color: `#rrggbb` from the high byte of
/// each channel, then the high byte of alpha unless it is `ff`.
pub open spec fn hex_string(c: Color) -> Seq<char> {
    let base = seq!['#'] + hex2((c.red / 256) as u8) + hex2((c.green / 256) as u8) + hex2(
        (c.blue / 256) as u8,
    );
    if c.alpha / 256 == 255 {
        base
    } else {
        base + hex2((c.alpha / 256) as u8)
    }
}

impl Color {
    /// Create a color from 8-bit channels (as read from a Plasma `colors`
    /// file): each channel becomes `257 * c`.
    pub fn from_rgba8(r: u8, g: u8, b: u8, a: u8) -> (c: Color)
        ensures
            c.red == widen(r),
            c.green == widen(g),
            c.blue == widen(b),
            c.alpha == widen(a),
    {
        Color {
            red: 257 * (r as u16),
            green: 257 * (g as u16),
            blue: 257 * (b as u16),
            alpha: 257 * (a as u16),
        }
    }

    /// Serialize as `#rrggbb`, or `#rrggbbaa` when the alpha byte is not `ff`
    /// (the high byte of each channel is written).
    pub fn to_hex_string(&self) -> (s: String)
        ensures
            s@ == hex_string(*self),
    {
        let mut result = String::new();
        push_char(&mut result, '#');
        push_hex2(&mut result, (self.red >> 8) as u8);
        push_hex2(&mut result, (self.green >> 8) as u8);
        push_hex2(&mut result, (self.blue >> 8) as u8);
        let a = (self.alpha >> 8) as u8;
        if a != 255 {
            push_hex2(&mut result, a);
        }
        proof {
            lemma_shr8(self.red);
            lemma_shr8(self.green);
            lemma_shr8(self.blue);
            lemma_shr8(self.alpha);
            assert(result@ =~= hex_string(*self));
        }
        result
    }
}

/// A right shift by 8 is a division by 256.
pub proof fn lemma_shr8(x: u16)
    ensures
        x >> 8 == x / 256,
        x / 256 < 256,
{
    assert(x >> 8 == x / 256) by (bit_vector);
}

/// The lowercase hexadecimal digit for a nibble.
pub fn hex_nibble(v: u16) -> (c: char)
    requires
        v < 16,
    ensures
        c == hex_char(v as nat),
{
    hex_digit_of(v as u64)
}

/// Widening keeps the high byte: serializing a color made from 8-bit
/// channels writes back exactly those channels (alpha only when it is not
/// `ff`).
pub proof fn lemma_hex_of_rgba8(r: u8, g: u8, b: u8, a: u8)
    ensures
        hex_string(Color { red: widen(r), green: widen(g), blue: widen(b), alpha: widen(a) })
            == seq!['#'] + hex2(r) + hex2(g) + hex2(b) + (if a == 255 {
            Seq::<char>::empty()
        } else {
            hex2(a)
        }),
{
    assert(widen(r) / 256 == r);
    assert(widen(g) / 256 == g);
    assert(widen(b) / 256 == b);
    assert(widen(a) / 256 == a);
    let c = Color { red: widen(r), green: widen(g), blue: widen(b), alpha: widen(a) };
    if a == 255 {
        assert(hex_string(c) =~= seq!['#'] + hex2(r) + hex2(g) + hex2(b) + Seq::<char>::empty());
    }
}

} // verus!
