//! Channel decoding of hex color literals.

use vstd::prelude::*;

verus! {

/// The 8-bit channels of a color, red, green, blue and alpha.
#[derive(Clone, Copy, Debug, PartialEq, Eq, Structural)]
pub struct Rgba8 {
    pub r: u8,
    pub g: u8,
    pub b: u8,
    pub a: u8,
}

/// The channels that a hex literal names: a value that fits in six hex
/// digits is `0xRRGGBB`, an opaque color; a longer one is `0xRRGGBBAA`.
pub open spec fn hex_channels_spec(hex: u32) -> Rgba8 {
    if hex <= 0xff_ffff {
        Rgba8 {
            r: (hex / 0x1_0000 % 0x100) as u8,
            g: (hex / 0x100 % 0x100) as u8,
            b: (hex % 0x100) as u8,
            a: 0xffu8,
        }
    } else {
        Rgba8 {
            r: (hex / 0x100_0000 % 0x100) as u8,
            g: (hex / 0x1_0000 % 0x100) as u8,
            b: (hex / 0x100 % 0x100) as u8,
            a: (hex % 0x100) as u8,
        }
    }
}

/// Decode a hex color literal into its channels:
/// - `0xRRGGBB` (at most six hex digits) is an opaque color;
/// - `0xRRGGBBAA` carries its alpha in the low byte.
///
/// An eight-digit literal whose red channel is zero fits in six digits and
/// so reads as `0xRRGGBB`.
pub fn hex_channels(hex: u32) -> (res: Rgba8)
    ensures
        res == hex_channels_spec(hex),
        hex <= 0xff_ffff ==> res.a == 0xff && res.r * 0x1_0000 + res.g * 0x100 + res.b == hex,
        hex > 0xff_ffff ==> res.r * 0x100_0000 + res.g * 0x1_0000 + res.b * 0x100 + res.a == hex,
{
    proof {
        lemma_hex_round_trip(hex);
    }
    if hex <= 0xff_ffff {
        Rgba8 {
            r: (hex / 0x1_0000 % 0x100) as u8,
            g: (hex / 0x100 % 0x100) as u8,
            b: (hex % 0x100) as u8,
            a: 0xff,
        }
    } else {
        Rgba8 {
            r: (hex / 0x100_0000 % 0x100) as u8,
            g: (hex / 0x1_0000 % 0x100) as u8,
            b: (hex / 0x100 % 0x100) as u8,
            a: (hex % 0x100) as u8,
        }
    }
}

/// The channels of a hex literal put back together give the literal:
/// `0xRRGGBB` from three channels (the alpha then being opaque), and
/// `0xRRGGBBAA` from all four.
pub proof fn lemma_hex_round_trip(hex: u32)
    ensures
        hex <= 0xff_ffff ==> {
            let c = hex_channels_spec(hex);
            c.a == 0xff && c.r * 0x1_0000 + c.g * 0x100 + c.b == hex
        },
        hex > 0xff_ffff ==> {
            let c = hex_channels_spec(hex);
            c.r * 0x100_0000 + c.g * 0x1_0000 + c.b * 0x100 + c.a == hex
        },
{
    let h = hex as int;
    vstd::arithmetic::div_mod::lemma_fundamental_div_mod(h, 0x100);
    vstd::arithmetic::div_mod::lemma_fundamental_div_mod(h / 0x100, 0x100);
    vstd::arithmetic::div_mod::lemma_fundamental_div_mod(h / 0x1_0000, 0x100);
    vstd::arithmetic::div_mod::lemma_div_denominator(h, 0x100, 0x100);
    vstd::arithmetic::div_mod::lemma_div_denominator(h, 0x1_0000, 0x100);
    assert(h / 0x100 / 0x100 == h / 0x1_0000);
    assert(h / 0x1_0000 / 0x100 == h / 0x100_0000);
    assert(h / 0x100_0000 < 0x100);
    if hex <= 0xff_ffff {
        assert(h / 0x1_0000 < 0x100);
    }
}

} // verus!
