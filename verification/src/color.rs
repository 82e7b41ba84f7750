//! 24-bit RGB color, with exact hex packing and unpacking.

use vstd::prelude::*;

verus! {

/// An 8-bit-per-channel RGB color.
#[derive(Debug, Clone, Copy, PartialEq, Eq, Structural)]
pub struct Color {
    pub r: u8,
    pub g: u8,
    pub b: u8,
}

/// The packed 0xRRGGBB form of a color.
pub open spec fn spec_color_hex(c: Color) -> int {
    (c.r as int) * 0x10000 + (c.g as int) * 0x100 + (c.b as int)
}

impl Color {
    /// Builds a color from channel values 0..=255.
    pub fn new(r: u8, g: u8, b: u8) -> (c: Self)
        ensures
            c == (Color { r, g, b }),
    {
        Color { r, g, b }
    }

    /// The black color, all channels zero.
    pub fn black() -> (c: Self)
        ensures
            c == (Color { r: 0u8, g: 0u8, b: 0u8 }),
    {
        Color { r: 0, g: 0, b: 0 }
    }

    /// Unpacks a 0xRRGGBB value; bits above the low 24 are ignored.
    pub fn from_hex(hex: u32) -> (c: Self)
        ensures
            c.r == (hex >> 16) & 0xFF,
            c.g == (hex >> 8) & 0xFF,
            c.b == hex & 0xFF,
    {
        let rm = (hex >> 16) & 0xFF;
        let gm = (hex >> 8) & 0xFF;
        let bm = hex & 0xFF;
        proof {
            assert((hex >> 16) & 0xFF < 256 && (hex >> 8) & 0xFF < 256 && (hex & 0xFF) < 256)
                by (bit_vector);
        }
        Color { r: rm as u8, g: gm as u8, b: bm as u8 }
    }

    /// Packs the color into 0xRRGGBB form.
    pub fn to_hex(&self) -> (hex: u32)
        ensures
            hex == spec_color_hex(*self),
            hex <= 0xFFFFFF,
    {
        let hex = ((self.r as u32) << 16) | ((self.g as u32) << 8) | (self.b as u32);
        proof {
            let r = self.r;
            let g = self.g;
            let b = self.b;
            assert(((r as u32) << 16) | ((g as u32) << 8) | (b as u32)
                == (r as u32) * 0x10000 + (g as u32) * 0x100 + (b as u32)) by (bit_vector);
            assert((r as u32) * 0x10000 + (g as u32) * 0x100 + (b as u32) <= 0xFFFFFF);
        }
        hex
    }
}

impl Color {
    /// Channel-wise sum, saturating at 255.
    pub fn saturating_add(&self, other: &Color) -> (c: Self)
        ensures
            c.r == (if self.r + other.r > 255 {
                255int
            } else {
                self.r + other.r
            }),
            c.g == (if self.g + other.g > 255 {
                255int
            } else {
                self.g + other.g
            }),
            c.b == (if self.b + other.b > 255 {
                255int
            } else {
                self.b + other.b
            }),
    {
        Color {
            r: self.r.saturating_add(other.r),
            g: self.g.saturating_add(other.g),
            b: self.b.saturating_add(other.b),
        }
    }
}

/// Packing a color and unpacking it again restores every channel, and
/// unpacking a 24-bit value and packing it again restores the value.
pub proof fn lemma_hex_round_trip(c: Color, hex: u32)
    requires
        hex <= 0xFFFFFF,
    ensures
        (hex >> 16) & 0xFF == hex / 0x10000,
        (hex >> 8) & 0xFF == (hex / 0x100) % 0x100,
        hex & 0xFF == hex % 0x100,
        spec_color_hex(c) / 0x10000 == c.r,
        (spec_color_hex(c) / 0x100) % 0x100 == c.g,
        spec_color_hex(c) % 0x100 == c.b,
{
    assert(hex <= 0xFFFFFF ==> ((hex >> 16) & 0xFF == hex / 0x10000
        && (hex >> 8) & 0xFF == (hex / 0x100) % 0x100
        && hex & 0xFF == hex % 0x100)) by (bit_vector);
    let r = c.r;
    let g = c.g;
    let b = c.b;
    assert(((r as u32) * 0x10000 + (g as u32) * 0x100 + (b as u32)) / 0x10000 == r as u32
        && (((r as u32) * 0x10000 + (g as u32) * 0x100 + (b as u32)) / 0x100) % 0x100 == g as u32
        && ((r as u32) * 0x10000 + (g as u32) * 0x100 + (b as u32)) % 0x100 == b as u32)
        by (bit_vector);
}

} // verus!
