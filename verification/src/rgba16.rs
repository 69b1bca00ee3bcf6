//! Conversions between 8-bit and 16-bit color channels.

use vstd::prelude::*;

verus! {

/// What `scale` computes: widen an 8-bit channel to 16 bits by duplicating
/// the byte, so that 0 maps to 0 and 255 maps to 65535.
pub open spec fn spec_scale(x: u8) -> u16 {
    (x + x * 256) as u16
}

/// What `downscale` computes: the 16-bit channel mapped back to 8 bits with
/// equal-sized buckets (0 and 65535 map to 0 and 255).
pub open spec fn spec_downscale(x: u16) -> u8 {
    (((x + 128) * 255) / 65535) as u8
}

/// Widen an 8-bit channel to 16 bits; inverse of `downscale` on its range.
pub fn scale(x: u8) -> (r: u16)
    ensures
        r == spec_scale(x),
{
    (x as u16) + ((x as u16) * 256)
}

/// Narrow a 16-bit channel to 8 bits with even bucketing.
pub fn downscale(x: u16) -> (r: u8)
    ensures
        r == spec_downscale(x),
{
    (((x as u32 + 128) * 255) / 65535) as u8
}

/// A color with 16 bits per channel.
#[derive(Debug, Clone, Copy, PartialEq, Eq, Structural)]
pub struct Rgba16 {
    /// Red channel.
    pub r: u16,
    /// Green channel.
    pub g: u16,
    /// Blue channel.
    pub b: u16,
    /// Alpha channel.
    pub a: u16,
}

/// Widen all four 8-bit channels of a color to 16 bits.
pub fn rgba16_pixel(r: u8, g: u8, b: u8, a: u8) -> (res: Rgba16)
    ensures
        res == (Rgba16 {
            r: spec_scale(r),
            g: spec_scale(g),
            b: spec_scale(b),
            a: spec_scale(a),
        }),
{
    Rgba16 { r: scale(r), g: scale(g), b: scale(b), a: scale(a) }
}

/// Round-trip law: `downscale(scale(x)) == x` for every 8-bit channel value.
pub proof fn lemma_scale_downscale_roundtrip(x: u8)
    ensures
        spec_downscale(spec_scale(x)) == x,
{
    assert(spec_scale(x) == x * 257);
    assert((x * 257 + 128) * 255 == 65535 * x + 32640) by (nonlinear_arith);
    vstd::arithmetic::div_mod::lemma_div_multiples_vanish_fancy(x as int, 32640, 65535);
}

/// Narrow all four 16-bit channels of a color to 8 bits.
pub fn as_rgba8_pixel(p: Rgba16) -> (res: crate::blend::Rgba8)
    ensures
        res == (crate::blend::Rgba8 {
            r: spec_downscale(p.r),
            g: spec_downscale(p.g),
            b: spec_downscale(p.b),
            a: spec_downscale(p.a),
        }),
{
    crate::blend::Rgba8 {
        r: downscale(p.r),
        g: downscale(p.g),
        b: downscale(p.b),
        a: downscale(p.a),
    }
}

} // verus!
