//! Per-pixel blend arithmetic, bit-for-bit compatible with the reference
//! application's integer fixed-point formulas.

use vstd::arithmetic::div_mod::{
    lemma_fundamental_div_mod, lemma_fundamental_div_mod_converse_div, lemma_mod_bound,
};
use vstd::prelude::*;

verus! {

/// An 8-bit RGBA color value.
#[derive(Debug, Clone, Copy, PartialEq, Eq, Structural)]
pub struct Rgba8 {
    /// Red channel.
    pub r: u8,
    /// Green channel.
    pub g: u8,
    /// Blue channel.
    pub b: u8,
    /// Alpha channel (0 = fully transparent, 255 = fully opaque).
    pub a: u8,
}

impl Rgba8 {
    /// The fully transparent black pixel.
    pub fn transparent() -> (r: Rgba8)
        ensures
            r == spec_transparent(),
    {
        Rgba8 { r: 0, g: 0, b: 0, a: 0 }
    }
}

/// The fully transparent black pixel.
pub open spec fn spec_transparent() -> Rgba8 {
    Rgba8 { r: 0, g: 0, b: 0, a: 0 }
}

/// The fixed-point byte multiply used throughout the blend formulas:
/// `((a*b + 128) / 256 + (a*b + 128)) / 256`. This rounds half up and is
/// deliberately not `a*b/255`.
pub open spec fn spec_mul_un8(a: int, b: int) -> int {
    let t = a * b + 0x80;
    (t / 256 + t) / 256
}

/// The fixed-point byte divide: `(a*255 + b/2) / b`.
pub open spec fn spec_div_un8(a: int, b: int) -> int {
    (a * 255 + b / 2) / b
}

proof fn lemma_mul_un8_le_snd(a: int, b: int)
    requires
        0 <= a <= 255,
        0 <= b <= 255,
    ensures
        0 <= spec_mul_un8(a, b),
        spec_mul_un8(a, b) <= b,
        spec_mul_un8(a, b) >= a + b - 255,
{
    let t = a * b + 0x80;
    assert(0 <= a * b && a * b <= 255 * b) by (nonlinear_arith)
        requires
            0 <= a <= 255 && 0 <= b,
    ;
    assert(a * b >= 255 * a + 255 * b - 255 * 255) by (nonlinear_arith)
        requires
            a <= 255 && b <= 255,
    ;
    assert(a * b >= 256 * a + 256 * b - 256 * 256) by (nonlinear_arith)
        requires
            a <= 256 && b <= 256,
    ;
    let q = t / 256;
    let r = t % 256;
    lemma_fundamental_div_mod(t, 256);
    lemma_mod_bound(t, 256);
    // q is in 0..=b
    assert(q <= b && q >= 0) by {
        assert(256 * q <= t);
        assert(t <= 255 * b + 128);
        vstd::arithmetic::div_mod::lemma_div_of0(256);
        vstd::arithmetic::div_mod::lemma_div_is_ordered(0, t, 256);
    };
    // spec_mul_un8(a, b) == q + (q + r) / 256
    assert(q + t == (q + r) + 256 * q);
    assert((q + t) / 256 == q + (q + r) / 256) by {
        vstd::arithmetic::div_mod::lemma_hoist_over_denominator(q + r, q, 256);
    };
    if q + r < 256 {
        assert((q + r) / 256 == 0) by {
            lemma_fundamental_div_mod_converse_div(q + r, 256, 0, q + r);
        };
        assert(spec_mul_un8(a, b) == q);
        // lower bound: 255*q >= a*b - 127 and a*b >= 255*(a + b) - 255*255
        assert(256 * q == t - r);
        assert(r <= 255 - q);
        assert(255 * q >= a * b - 127);
        assert(255 * q >= 255 * (a + b - 255) - 127);
    } else {
        assert((q + r) / 256 == 1) by {
            lemma_fundamental_div_mod_converse_div(q + r, 256, 1, q + r - 256);
        };
        assert(spec_mul_un8(a, b) == q + 1);
        // upper bound: q == b is impossible here
        if q == b {
            assert(256 * q + r == a * b + 128);
            assert(r <= 255 * b + 128 - 256 * b);
            assert(q + r <= 128);
            assert(false);
        }
        // lower bound
        assert(256 * q >= t - 255);
        assert(256 * q + 256 >= a * b + 129);
        assert(256 * (q + 1) >= 256 * (a + b) - 65536 + 129);
    }
}

/// Bounds of the fixed-point multiply: the result is a byte no larger than
/// either factor and no smaller than `a + b - 255`.
pub proof fn lemma_mul_un8_bounds(a: int, b: int)
    requires
        0 <= a <= 255,
        0 <= b <= 255,
    ensures
        0 <= spec_mul_un8(a, b),
        spec_mul_un8(a, b) <= a,
        spec_mul_un8(a, b) <= b,
        spec_mul_un8(a, b) >= a + b - 255,
{
    lemma_mul_un8_le_snd(a, b);
    lemma_mul_un8_le_snd(b, a);
    assert(a * b == b * a) by (nonlinear_arith);
}

/// Multiplying by an opacity of 255 is the identity: `mul8(a, 255) == a`.
pub proof fn lemma_mul_un8_255(a: int)
    requires
        0 <= a <= 255,
    ensures
        spec_mul_un8(a, 255) == a,
{
    let t = a * 255 + 0x80;
    assert(t == a * 255 + 128);
    if a <= 128 {
        // t = 256*a + (128 - a) with 0 <= 128 - a < 256
        assert(t == 256 * a + (128 - a));
        lemma_fundamental_div_mod_converse_div(t, 256, a, 128 - a);
        assert(t / 256 == a);
        assert(a + t == 256 * a + 128);
        lemma_fundamental_div_mod_converse_div(a + t, 256, a, 128);
    } else {
        // t = 256*(a-1) + (384 - a) with 0 <= 384 - a < 256
        assert(t == 256 * (a - 1) + (384 - a));
        lemma_fundamental_div_mod_converse_div(t, 256, a - 1, 384 - a);
        assert(t / 256 == a - 1);
        assert((a - 1) + t == 256 * a + 127);
        lemma_fundamental_div_mod_converse_div(a - 1 + t, 256, a, 127);
    }
}

/// Multiplying by an opacity of 0 gives 0: `mul8(a, 0) == 0`.
pub proof fn lemma_mul_un8_0(a: int)
    requires
        0 <= a <= 255,
    ensures
        spec_mul_un8(a, 0) == 0,
{
    assert(a * 0 == 0) by (nonlinear_arith);
    lemma_fundamental_div_mod_converse_div(128int, 256, 0, 128);
}

/// Bounds of the fixed-point divide for `a <= b`.
pub proof fn lemma_div_un8_bounds(a: int, b: int)
    requires
        0 <= a <= b <= 255,
        b >= 1,
    ensures
        0 <= spec_div_un8(a, b) <= 255,
{
    let x = a * 255 + b / 2;
    lemma_mod_bound(b, 2);
    lemma_fundamental_div_mod(b, 2);
    assert(a * 255 <= 255 * b) by (nonlinear_arith)
        requires
            a <= b,
    ;
    assert(x < 256 * b);
    lemma_fundamental_div_mod(x, b);
    lemma_mod_bound(x, b);
    assert(b * (x / b) <= x);
    assert(x / b <= 255) by (nonlinear_arith)
        requires
            b * (x / b) < 256 * b && b > 0,
    ;
    assert(x / b >= 0) by (nonlinear_arith)
        requires
            b * (x / b) + x % b == x && x >= 0 && 0 <= x % b < b && b > 0,
    ;
}

/// The signed byte interpolation at the heart of `merge`:
/// `back + (((src-back)*opacity + 128) >> 8 + ((src-back)*opacity + 128)) >> 8`
/// evaluated with arithmetic shifts, written out by sign of `src - back`.
pub open spec fn spec_blend8(back: int, src: int, opacity: int) -> int {
    if src >= back {
        back + spec_mul_un8(src - back, opacity)
    } else {
        let p = (back - src) * opacity;
        if p <= 0x80 {
            back
        } else {
            let u = p - 0x80;
            back - ((u + 255) / 256 + u + 255) / 256
        }
    }
}

proof fn lemma_blend8_bounds(back: int, src: int, opacity: int)
    requires
        0 <= back <= 255,
        0 <= src <= 255,
        0 <= opacity <= 255,
    ensures
        0 <= spec_blend8(back, src, opacity) <= 255,
{
    if src >= back {
        lemma_mul_un8_bounds(src - back, opacity);
    } else {
        let d = back - src;
        let p = d * opacity;
        assert(0 <= p <= d * 255) by (nonlinear_arith)
            requires
                p == d * opacity && 0 <= opacity <= 255 && d >= 0,
        ;
        if p > 0x80 {
            let u = p - 0x80;
            let h = (u + 255) / 256;
            assert(u + 255 < 256 * (d + 1));
            lemma_fundamental_div_mod(u + 255, 256);
            lemma_mod_bound(u + 255, 256);
            assert(0 <= h <= d);
            let n = h + u + 255;
            assert(n < 256 * (d + 1));
            lemma_fundamental_div_mod(n, 256);
            lemma_mod_bound(n, 256);
            assert(0 <= n / 256 <= d);
        }
    }
}

/// The fixed-point multiply; also the Multiply channel blend.
pub fn mul_un8(a: u8, b: u8) -> (r: u8)
    ensures
        r == spec_mul_un8(a as int, b as int),
{
    proof {
        lemma_mul_un8_bounds(a as int, b as int);
    }
    let t: u32 = (a as u32) * (b as u32) + 0x80;
    ((t / 256 + t) / 256) as u8
}

/// The fixed-point divide; used by the dodge, burn and divide blends.
pub fn div_un8(a: u8, b: u8) -> (r: u8)
    requires
        a <= b,
        b >= 1,
    ensures
        r == spec_div_un8(a as int, b as int),
{
    proof {
        lemma_div_un8_bounds(a as int, b as int);
    }
    let t: u32 = (a as u32) * 0xff;
    let u: u32 = (b as u32) / 2;
    ((t + u) / (b as u32)) as u8
}

/// Interpolate a single byte channel from `back` toward `src` by `opacity`.
pub fn blend8(back: u8, src: u8, opacity: u8) -> (r: u8)
    ensures
        r == spec_blend8(back as int, src as int, opacity as int),
{
    proof {
        lemma_blend8_bounds(back as int, src as int, opacity as int);
        if src >= back {
            lemma_mul_un8_bounds(src as int - back as int, opacity as int);
        }
    }
    if src >= back {
        let t: u32 = ((src - back) as u32) * (opacity as u32) + 0x80;
        back + ((t / 256 + t) / 256) as u8
    } else {
        let p: u32 = ((back - src) as u32) * (opacity as u32);
        if p <= 0x80 {
            back
        } else {
            let u: u32 = p - 0x80;
            back - (((u + 255) / 256 + u + 255) / 256) as u8
        }
    }
}

/// One channel of the Normal blend: `b + (s - b) * sa / ra`, with the
/// truncating signed division written out by sign of `s - b`.
pub open spec fn spec_norm_chan(b: int, s: int, sa: int, ra: int) -> int {
    if s >= b {
        b + (s - b) * sa / ra
    } else {
        b - (b - s) * sa / ra
    }
}

proof fn lemma_norm_chan_bounds(b: int, s: int, sa: int, ra: int)
    requires
        0 <= b <= 255,
        0 <= s <= 255,
        0 <= sa <= ra,
        1 <= ra,
    ensures
        b <= s ==> b <= spec_norm_chan(b, s, sa, ra) <= s,
        s <= b ==> s <= spec_norm_chan(b, s, sa, ra) <= b,
{
    let d = if s >= b { s - b } else { b - s };
    assert(0 <= d * sa <= d * ra) by (nonlinear_arith)
        requires
            0 <= sa <= ra && 0 <= d,
    ;
    vstd::arithmetic::div_mod::lemma_div_is_ordered(d * sa, d * ra, ra);
    vstd::arithmetic::div_mod::lemma_div_by_multiple(d, ra);
    assert(d * ra == ra * d) by (nonlinear_arith);
    assert(d * sa / ra <= d);
    vstd::arithmetic::div_mod::lemma_div_of0(ra);
    vstd::arithmetic::div_mod::lemma_div_is_ordered(0, d * sa, ra);
}

fn norm_chan(b: u8, s: u8, sa: u32, ra: u32) -> (r: u8)
    requires
        sa <= ra <= 255,
        1 <= ra,
    ensures
        r == spec_norm_chan(b as int, s as int, sa as int, ra as int),
{
    proof {
        lemma_norm_chan_bounds(b as int, s as int, sa as int, ra as int);
    }
    if s >= b {
        let d: u32 = (s - b) as u32;
        assert(d * sa <= 255 * 255) by (nonlinear_arith)
            requires
                d <= 255 && sa <= 255,
        ;
        let q: u32 = d * sa / ra;
        assert(q == (s as int - b as int) * (sa as int) / (ra as int));
        assert(q <= s - b);
        b + (q as u8)
    } else {
        let d: u32 = (b - s) as u32;
        assert(d * sa <= 255 * 255) by (nonlinear_arith)
            requires
                d <= 255 && sa <= 255,
        ;
        let q: u32 = d * sa / ra;
        assert(q == (b as int - s as int) * (sa as int) / (ra as int));
        assert(q <= b - s);
        b - (q as u8)
    }
}

/// The Normal blend: alpha-composite `src` at `opacity` over `backdrop`.
pub open spec fn spec_normal(bd: Rgba8, s: Rgba8, opacity: int) -> Rgba8 {
    if bd.a == 0 {
        Rgba8 { r: s.r, g: s.g, b: s.b, a: spec_mul_un8(s.a as int, opacity) as u8 }
    } else if s.a == 0 {
        bd
    } else {
        let sa = spec_mul_un8(s.a as int, opacity);
        let ra = sa + bd.a - spec_mul_un8(bd.a as int, sa);
        Rgba8 {
            r: spec_norm_chan(bd.r as int, s.r as int, sa, ra) as u8,
            g: spec_norm_chan(bd.g as int, s.g as int, sa, ra) as u8,
            b: spec_norm_chan(bd.b as int, s.b as int, sa, ra) as u8,
            a: ra as u8,
        }
    }
}

/// The Normal blend mode.
pub fn normal(backdrop: Rgba8, src: Rgba8, opacity: u8) -> (r: Rgba8)
    ensures
        r == spec_normal(backdrop, src, opacity as int),
{
    if backdrop.a == 0 {
        let alpha = mul_un8(src.a, opacity);
        Rgba8 { r: src.r, g: src.g, b: src.b, a: alpha }
    } else if src.a == 0 {
        backdrop
    } else {
        proof {
            lemma_mul_un8_bounds(src.a as int, opacity as int);
        }
        let sa = mul_un8(src.a, opacity);
        proof {
            lemma_mul_un8_bounds(backdrop.a as int, sa as int);
        }
        let m = mul_un8(backdrop.a, sa);
        let ra: u32 = sa as u32 + backdrop.a as u32 - m as u32;
        proof {
            lemma_norm_chan_bounds(backdrop.r as int, src.r as int, sa as int, ra as int);
            lemma_norm_chan_bounds(backdrop.g as int, src.g as int, sa as int, ra as int);
            lemma_norm_chan_bounds(backdrop.b as int, src.b as int, sa as int, ra as int);
        }
        Rgba8 {
            r: norm_chan(backdrop.r, src.r, sa as u32, ra),
            g: norm_chan(backdrop.g, src.g, sa as u32, ra),
            b: norm_chan(backdrop.b, src.b, sa as u32, ra),
            a: ra as u8,
        }
    }
}

/// The Merge combination used to mix a Normal result with a mode result.
pub open spec fn spec_merge(bd: Rgba8, s: Rgba8, opacity: int) -> Rgba8 {
    let rr: int = if bd.a == 0 {
        s.r as int
    } else if s.a == 0 {
        bd.r as int
    } else {
        spec_blend8(bd.r as int, s.r as int, opacity)
    };
    let rg: int = if bd.a == 0 {
        s.g as int
    } else if s.a == 0 {
        bd.g as int
    } else {
        spec_blend8(bd.g as int, s.g as int, opacity)
    };
    let rb: int = if bd.a == 0 {
        s.b as int
    } else if s.a == 0 {
        bd.b as int
    } else {
        spec_blend8(bd.b as int, s.b as int, opacity)
    };
    let ra = spec_blend8(bd.a as int, s.a as int, opacity);
    if ra == 0 {
        spec_transparent()
    } else {
        Rgba8 { r: rr as u8, g: rg as u8, b: rb as u8, a: ra as u8 }
    }
}

/// Merge two colors channel-wise by `opacity`.
pub fn merge(backdrop: Rgba8, src: Rgba8, opacity: u8) -> (r: Rgba8)
    ensures
        r == spec_merge(backdrop, src, opacity as int),
{
    let rr: u8;
    let rg: u8;
    let rb: u8;
    if backdrop.a == 0 {
        rr = src.r;
        rg = src.g;
        rb = src.b;
    } else if src.a == 0 {
        rr = backdrop.r;
        rg = backdrop.g;
        rb = backdrop.b;
    } else {
        rr = blend8(backdrop.r, src.r, opacity);
        rg = blend8(backdrop.g, src.g, opacity);
        rb = blend8(backdrop.b, src.b, opacity);
    }
    let ra = blend8(backdrop.a, src.a, opacity);
    if ra == 0 {
        Rgba8 { r: 0, g: 0, b: 0, a: 0 }
    } else {
        Rgba8 { r: rr, g: rg, b: rb, a: ra }
    }
}

/// The shared two-stage composition: mix the Normal result with the
/// mode-specific result `blend`, using the backdrop alpha and then the
/// composite alpha; with a fully transparent backdrop the mode degenerates
/// to Normal.
pub open spec fn spec_blender(bd: Rgba8, s: Rgba8, opacity: int, blend: Rgba8) -> Rgba8 {
    if bd.a != 0 {
        let norm = spec_normal(bd, s, opacity);
        let ntb = spec_merge(norm, blend, bd.a as int);
        let sta = spec_mul_un8(s.a as int, opacity);
        let ca = spec_mul_un8(bd.a as int, sta);
        spec_merge(ntb, blend, ca)
    } else {
        spec_normal(bd, s, opacity)
    }
}

pub(crate) fn blender_with(backdrop: Rgba8, src: Rgba8, opacity: u8, blend: Rgba8) -> (r: Rgba8)
    ensures
        r == spec_blender(backdrop, src, opacity as int, blend),
{
    if backdrop.a != 0 {
        let norm = normal(backdrop, src, opacity);
        let ntb = merge(norm, blend, backdrop.a);
        proof {
            lemma_mul_un8_bounds(src.a as int, opacity as int);
        }
        let sta = mul_un8(src.a, opacity);
        proof {
            lemma_mul_un8_bounds(backdrop.a as int, sta as int);
        }
        let ca = mul_un8(backdrop.a, sta);
        merge(ntb, blend, ca)
    } else {
        normal(backdrop, src, opacity)
    }
}

/// The Multiply channel formula.
pub open spec fn spec_chan_multiply(b: int, s: int) -> int {
    spec_mul_un8(b, s)
}

/// Multiply of two channels.
pub fn blend_multiply(a: u8, b: u8) -> (r: u8)
    ensures
        r == spec_chan_multiply(a as int, b as int),
{
    mul_un8(a, b)
}

/// The Screen channel formula: `b + s - mul8(b, s)`.
pub open spec fn spec_chan_screen(b: int, s: int) -> int {
    b + s - spec_mul_un8(b, s)
}

/// Screen of two channels.
pub fn blend_screen(a: u8, b: u8) -> (r: u8)
    ensures
        r == spec_chan_screen(a as int, b as int),
{
    proof {
        lemma_mul_un8_bounds(a as int, b as int);
    }
    let m = mul_un8(a, b);
    ((a as u32) + (b as u32) - (m as u32)) as u8
}

/// The Hard Light channel formula.
pub open spec fn spec_chan_hard_light(b: int, s: int) -> int {
    if s < 128 {
        spec_chan_multiply(b, 2 * s)
    } else {
        spec_chan_screen(b, 2 * s - 255)
    }
}

/// Hard light of two channels.
pub fn blend_hard_light(b: u8, s: u8) -> (r: u8)
    ensures
        r == spec_chan_hard_light(b as int, s as int),
{
    if s < 128 {
        blend_multiply(b, 2 * s)
    } else {
        blend_screen(b, (2 * (s as u32) - 255) as u8)
    }
}

/// The Overlay channel formula: hard light with the channels swapped.
pub open spec fn spec_chan_overlay(b: int, s: int) -> int {
    spec_chan_hard_light(s, b)
}

/// Overlay of two channels.
pub fn blend_overlay(b: u8, s: u8) -> (r: u8)
    ensures
        r == spec_chan_overlay(b as int, s as int),
{
    blend_hard_light(s, b)
}

/// The Darken channel formula: the smaller channel.
pub open spec fn spec_chan_darken(b: int, s: int) -> int {
    if b < s {
        b
    } else {
        s
    }
}

/// Darken of two channels.
pub fn blend_darken(b: u8, s: u8) -> (r: u8)
    ensures
        r == spec_chan_darken(b as int, s as int),
{
    if b < s {
        b
    } else {
        s
    }
}

/// The Lighten channel formula: the larger channel.
pub open spec fn spec_chan_lighten(b: int, s: int) -> int {
    if b > s {
        b
    } else {
        s
    }
}

/// Lighten of two channels.
pub fn blend_lighten(b: u8, s: u8) -> (r: u8)
    ensures
        r == spec_chan_lighten(b as int, s as int),
{
    if b > s {
        b
    } else {
        s
    }
}

/// The Color Dodge channel formula.
pub open spec fn spec_chan_color_dodge(b: int, s: int) -> int {
    if b == 0 {
        0
    } else {
        let s2 = 255 - s;
        if b >= s2 {
            255
        } else {
            spec_div_un8(b, s2)
        }
    }
}

/// Color dodge of two channels.
pub fn blend_color_dodge(b: u8, s: u8) -> (r: u8)
    ensures
        r == spec_chan_color_dodge(b as int, s as int),
{
    if b == 0 {
        0
    } else {
        let s2 = 255 - s;
        if b >= s2 {
            255
        } else {
            div_un8(b, s2)
        }
    }
}

/// The Color Burn channel formula.
pub open spec fn spec_chan_color_burn(b: int, s: int) -> int {
    if b == 255 {
        255
    } else {
        let b2 = 255 - b;
        if b2 >= s {
            0
        } else {
            255 - spec_div_un8(b2, s)
        }
    }
}

/// Color burn of two channels.
pub fn blend_color_burn(b: u8, s: u8) -> (r: u8)
    ensures
        r == spec_chan_color_burn(b as int, s as int),
{
    if b == 255 {
        255
    } else {
        let b2 = 255 - b;
        if b2 >= s {
            0
        } else {
            proof {
                lemma_div_un8_bounds(b2 as int, s as int);
            }
            255 - div_un8(b2, s)
        }
    }
}

/// The Divide channel formula.
pub open spec fn spec_chan_divide(b: int, s: int) -> int {
    if b == 0 {
        0
    } else if b >= s {
        255
    } else {
        spec_div_un8(b, s)
    }
}

/// Divide of two channels.
pub fn blend_divide(b: u8, s: u8) -> (r: u8)
    ensures
        r == spec_chan_divide(b as int, s as int),
{
    if b == 0 {
        0
    } else if b >= s {
        255
    } else {
        div_un8(b, s)
    }
}

/// The Difference channel formula: the absolute difference.
pub open spec fn spec_chan_difference(b: int, s: int) -> int {
    if b >= s {
        b - s
    } else {
        s - b
    }
}

/// Difference of two channels.
pub fn blend_difference(b: u8, s: u8) -> (r: u8)
    ensures
        r == spec_chan_difference(b as int, s as int),
{
    if b >= s {
        b - s
    } else {
        s - b
    }
}

/// The Exclusion channel formula: `b + s - 2 * mul8(b, s)`.
pub open spec fn spec_chan_exclusion(b: int, s: int) -> int {
    b + s - 2 * spec_mul_un8(b, s)
}

/// Exclusion of two channels.
pub fn blend_exclusion(b: u8, s: u8) -> (r: u8)
    ensures
        r == spec_chan_exclusion(b as int, s as int),
{
    proof {
        lemma_mul_un8_bounds(b as int, s as int);
    }
    let t = mul_un8(b, s);
    ((b as u32) + (s as u32) - 2 * (t as u32)) as u8
}

/// Replace the color channels of `src` and then blend Normal.
pub open spec fn spec_with_channels(bd: Rgba8, s: Rgba8, opacity: int, r: int, g: int, b: int) -> Rgba8 {
    spec_normal(bd, Rgba8 { r: r as u8, g: g as u8, b: b as u8, a: s.a }, opacity)
}

pub(crate) fn with_channels(backdrop: Rgba8, src: Rgba8, opacity: u8, r: u8, g: u8, b: u8) -> (res: Rgba8)
    ensures
        res == spec_with_channels(backdrop, src, opacity as int, r as int, g as int, b as int),
{
    normal(backdrop, Rgba8 { r, g, b, a: src.a }, opacity)
}

/// The Multiply blend mode.
pub open spec fn spec_multiply(bd: Rgba8, s: Rgba8, opacity: int) -> Rgba8 {
    spec_blender(
        bd,
        s,
        opacity,
        spec_with_channels(
            bd,
            s,
            opacity,
            spec_chan_multiply(bd.r as int, s.r as int),
            spec_chan_multiply(bd.g as int, s.g as int),
            spec_chan_multiply(bd.b as int, s.b as int),
        ),
    )
}

/// Multiply blend of two pixels.
pub fn multiply(backdrop: Rgba8, src: Rgba8, opacity: u8) -> (res: Rgba8)
    ensures
        res == spec_multiply(backdrop, src, opacity as int),
{
    let base = with_channels(
        backdrop,
        src,
        opacity,
        blend_multiply(backdrop.r, src.r),
        blend_multiply(backdrop.g, src.g),
        blend_multiply(backdrop.b, src.b),
    );
    blender_with(backdrop, src, opacity, base)
}

/// The Screen blend mode.
pub open spec fn spec_screen(bd: Rgba8, s: Rgba8, opacity: int) -> Rgba8 {
    spec_blender(
        bd,
        s,
        opacity,
        spec_with_channels(
            bd,
            s,
            opacity,
            spec_chan_screen(bd.r as int, s.r as int),
            spec_chan_screen(bd.g as int, s.g as int),
            spec_chan_screen(bd.b as int, s.b as int),
        ),
    )
}

/// Screen blend of two pixels.
pub fn screen(backdrop: Rgba8, src: Rgba8, opacity: u8) -> (res: Rgba8)
    ensures
        res == spec_screen(backdrop, src, opacity as int),
{
    let base = with_channels(
        backdrop,
        src,
        opacity,
        blend_screen(backdrop.r, src.r),
        blend_screen(backdrop.g, src.g),
        blend_screen(backdrop.b, src.b),
    );
    blender_with(backdrop, src, opacity, base)
}

/// The Overlay blend mode.
pub open spec fn spec_overlay(bd: Rgba8, s: Rgba8, opacity: int) -> Rgba8 {
    spec_blender(
        bd,
        s,
        opacity,
        spec_with_channels(
            bd,
            s,
            opacity,
            spec_chan_overlay(bd.r as int, s.r as int),
            spec_chan_overlay(bd.g as int, s.g as int),
            spec_chan_overlay(bd.b as int, s.b as int),
        ),
    )
}

/// Overlay blend of two pixels.
pub fn overlay(backdrop: Rgba8, src: Rgba8, opacity: u8) -> (res: Rgba8)
    ensures
        res == spec_overlay(backdrop, src, opacity as int),
{
    let base = with_channels(
        backdrop,
        src,
        opacity,
        blend_overlay(backdrop.r, src.r),
        blend_overlay(backdrop.g, src.g),
        blend_overlay(backdrop.b, src.b),
    );
    blender_with(backdrop, src, opacity, base)
}

/// The Darken blend mode.
pub open spec fn spec_darken(bd: Rgba8, s: Rgba8, opacity: int) -> Rgba8 {
    spec_blender(
        bd,
        s,
        opacity,
        spec_with_channels(
            bd,
            s,
            opacity,
            spec_chan_darken(bd.r as int, s.r as int),
            spec_chan_darken(bd.g as int, s.g as int),
            spec_chan_darken(bd.b as int, s.b as int),
        ),
    )
}

/// Darken blend of two pixels.
pub fn darken(backdrop: Rgba8, src: Rgba8, opacity: u8) -> (res: Rgba8)
    ensures
        res == spec_darken(backdrop, src, opacity as int),
{
    let base = with_channels(
        backdrop,
        src,
        opacity,
        blend_darken(backdrop.r, src.r),
        blend_darken(backdrop.g, src.g),
        blend_darken(backdrop.b, src.b),
    );
    blender_with(backdrop, src, opacity, base)
}

/// The Lighten blend mode.
pub open spec fn spec_lighten(bd: Rgba8, s: Rgba8, opacity: int) -> Rgba8 {
    spec_blender(
        bd,
        s,
        opacity,
        spec_with_channels(
            bd,
            s,
            opacity,
            spec_chan_lighten(bd.r as int, s.r as int),
            spec_chan_lighten(bd.g as int, s.g as int),
            spec_chan_lighten(bd.b as int, s.b as int),
        ),
    )
}

/// Lighten blend of two pixels.
pub fn lighten(backdrop: Rgba8, src: Rgba8, opacity: u8) -> (res: Rgba8)
    ensures
        res == spec_lighten(backdrop, src, opacity as int),
{
    let base = with_channels(
        backdrop,
        src,
        opacity,
        blend_lighten(backdrop.r, src.r),
        blend_lighten(backdrop.g, src.g),
        blend_lighten(backdrop.b, src.b),
    );
    blender_with(backdrop, src, opacity, base)
}

/// The Color Dodge blend mode.
pub open spec fn spec_color_dodge(bd: Rgba8, s: Rgba8, opacity: int) -> Rgba8 {
    spec_blender(
        bd,
        s,
        opacity,
        spec_with_channels(
            bd,
            s,
            opacity,
            spec_chan_color_dodge(bd.r as int, s.r as int),
            spec_chan_color_dodge(bd.g as int, s.g as int),
            spec_chan_color_dodge(bd.b as int, s.b as int),
        ),
    )
}

/// Color dodge blend of two pixels.
pub fn color_dodge(backdrop: Rgba8, src: Rgba8, opacity: u8) -> (res: Rgba8)
    ensures
        res == spec_color_dodge(backdrop, src, opacity as int),
{
    let base = with_channels(
        backdrop,
        src,
        opacity,
        blend_color_dodge(backdrop.r, src.r),
        blend_color_dodge(backdrop.g, src.g),
        blend_color_dodge(backdrop.b, src.b),
    );
    blender_with(backdrop, src, opacity, base)
}

/// The Color Burn blend mode.
pub open spec fn spec_color_burn(bd: Rgba8, s: Rgba8, opacity: int) -> Rgba8 {
    spec_blender(
        bd,
        s,
        opacity,
        spec_with_channels(
            bd,
            s,
            opacity,
            spec_chan_color_burn(bd.r as int, s.r as int),
            spec_chan_color_burn(bd.g as int, s.g as int),
            spec_chan_color_burn(bd.b as int, s.b as int),
        ),
    )
}

/// Color burn blend of two pixels.
pub fn color_burn(backdrop: Rgba8, src: Rgba8, opacity: u8) -> (res: Rgba8)
    ensures
        res == spec_color_burn(backdrop, src, opacity as int),
{
    let base = with_channels(
        backdrop,
        src,
        opacity,
        blend_color_burn(backdrop.r, src.r),
        blend_color_burn(backdrop.g, src.g),
        blend_color_burn(backdrop.b, src.b),
    );
    blender_with(backdrop, src, opacity, base)
}

/// The Hard Light blend mode.
pub open spec fn spec_hard_light(bd: Rgba8, s: Rgba8, opacity: int) -> Rgba8 {
    spec_blender(
        bd,
        s,
        opacity,
        spec_with_channels(
            bd,
            s,
            opacity,
            spec_chan_hard_light(bd.r as int, s.r as int),
            spec_chan_hard_light(bd.g as int, s.g as int),
            spec_chan_hard_light(bd.b as int, s.b as int),
        ),
    )
}

/// Hard light blend of two pixels.
pub fn hard_light(backdrop: Rgba8, src: Rgba8, opacity: u8) -> (res: Rgba8)
    ensures
        res == spec_hard_light(backdrop, src, opacity as int),
{
    let base = with_channels(
        backdrop,
        src,
        opacity,
        blend_hard_light(backdrop.r, src.r),
        blend_hard_light(backdrop.g, src.g),
        blend_hard_light(backdrop.b, src.b),
    );
    blender_with(backdrop, src, opacity, base)
}

/// The Divide blend mode.
pub open spec fn spec_divide(bd: Rgba8, s: Rgba8, opacity: int) -> Rgba8 {
    spec_blender(
        bd,
        s,
        opacity,
        spec_with_channels(
            bd,
            s,
            opacity,
            spec_chan_divide(bd.r as int, s.r as int),
            spec_chan_divide(bd.g as int, s.g as int),
            spec_chan_divide(bd.b as int, s.b as int),
        ),
    )
}

/// Divide blend of two pixels.
pub fn divide(backdrop: Rgba8, src: Rgba8, opacity: u8) -> (res: Rgba8)
    ensures
        res == spec_divide(backdrop, src, opacity as int),
{
    let base = with_channels(
        backdrop,
        src,
        opacity,
        blend_divide(backdrop.r, src.r),
        blend_divide(backdrop.g, src.g),
        blend_divide(backdrop.b, src.b),
    );
    blender_with(backdrop, src, opacity, base)
}

/// The Difference blend mode.
pub open spec fn spec_difference(bd: Rgba8, s: Rgba8, opacity: int) -> Rgba8 {
    spec_blender(
        bd,
        s,
        opacity,
        spec_with_channels(
            bd,
            s,
            opacity,
            spec_chan_difference(bd.r as int, s.r as int),
            spec_chan_difference(bd.g as int, s.g as int),
            spec_chan_difference(bd.b as int, s.b as int),
        ),
    )
}

/// Difference blend of two pixels.
pub fn difference(backdrop: Rgba8, src: Rgba8, opacity: u8) -> (res: Rgba8)
    ensures
        res == spec_difference(backdrop, src, opacity as int),
{
    let base = with_channels(
        backdrop,
        src,
        opacity,
        blend_difference(backdrop.r, src.r),
        blend_difference(backdrop.g, src.g),
        blend_difference(backdrop.b, src.b),
    );
    blender_with(backdrop, src, opacity, base)
}

/// The Exclusion blend mode.
pub open spec fn spec_exclusion(bd: Rgba8, s: Rgba8, opacity: int) -> Rgba8 {
    spec_blender(
        bd,
        s,
        opacity,
        spec_with_channels(
            bd,
            s,
            opacity,
            spec_chan_exclusion(bd.r as int, s.r as int),
            spec_chan_exclusion(bd.g as int, s.g as int),
            spec_chan_exclusion(bd.b as int, s.b as int),
        ),
    )
}

/// Exclusion blend of two pixels.
pub fn exclusion(backdrop: Rgba8, src: Rgba8, opacity: u8) -> (res: Rgba8)
    ensures
        res == spec_exclusion(backdrop, src, opacity as int),
{
    let base = with_channels(
        backdrop,
        src,
        opacity,
        blend_exclusion(backdrop.r, src.r),
        blend_exclusion(backdrop.g, src.g),
        blend_exclusion(backdrop.b, src.b),
    );
    blender_with(backdrop, src, opacity, base)
}

/// The Addition channel formula: the sum clamped to 255.
pub open spec fn spec_chan_addition(b: int, s: int) -> int {
    if b + s <= 255 {
        b + s
    } else {
        255
    }
}

/// The Addition blend mode.
pub open spec fn spec_addition(bd: Rgba8, s: Rgba8, opacity: int) -> Rgba8 {
    spec_blender(
        bd,
        s,
        opacity,
        spec_with_channels(
            bd,
            s,
            opacity,
            spec_chan_addition(bd.r as int, s.r as int),
            spec_chan_addition(bd.g as int, s.g as int),
            spec_chan_addition(bd.b as int, s.b as int),
        ),
    )
}

fn chan_addition(b: u8, s: u8) -> (r: u8)
    ensures
        r == spec_chan_addition(b as int, s as int),
{
    let t = (b as u32) + (s as u32);
    if t <= 255 {
        t as u8
    } else {
        255
    }
}

/// Addition blend of two pixels.
pub fn addition(backdrop: Rgba8, src: Rgba8, opacity: u8) -> (res: Rgba8)
    ensures
        res == spec_addition(backdrop, src, opacity as int),
{
    let base = with_channels(
        backdrop,
        src,
        opacity,
        chan_addition(backdrop.r, src.r),
        chan_addition(backdrop.g, src.g),
        chan_addition(backdrop.b, src.b),
    );
    blender_with(backdrop, src, opacity, base)
}

/// The Subtract channel formula: the difference clamped to 0.
pub open spec fn spec_chan_subtract(b: int, s: int) -> int {
    if b - s >= 0 {
        b - s
    } else {
        0
    }
}

/// The Subtract blend mode.
pub open spec fn spec_subtract(bd: Rgba8, s: Rgba8, opacity: int) -> Rgba8 {
    spec_blender(
        bd,
        s,
        opacity,
        spec_with_channels(
            bd,
            s,
            opacity,
            spec_chan_subtract(bd.r as int, s.r as int),
            spec_chan_subtract(bd.g as int, s.g as int),
            spec_chan_subtract(bd.b as int, s.b as int),
        ),
    )
}

fn chan_subtract(b: u8, s: u8) -> (r: u8)
    ensures
        r == spec_chan_subtract(b as int, s as int),
{
    if b >= s {
        b - s
    } else {
        0
    }
}

/// Subtract blend of two pixels.
pub fn subtract(backdrop: Rgba8, src: Rgba8, opacity: u8) -> (res: Rgba8)
    ensures
        res == spec_subtract(backdrop, src, opacity as int),
{
    let base = with_channels(
        backdrop,
        src,
        opacity,
        chan_subtract(backdrop.r, src.r),
        chan_subtract(backdrop.g, src.g),
        chan_subtract(backdrop.b, src.b),
    );
    blender_with(backdrop, src, opacity, base)
}

/// Blending at opacity 0 leaves any backdrop with nonzero alpha unchanged.
/// (A backdrop with alpha 0 instead takes the source's color channels.)
pub proof fn lemma_normal_opacity_zero(bd: Rgba8, s: Rgba8)
    requires
        bd.a != 0,
    ensures
        spec_normal(bd, s, 0) == bd,
{
    if s.a != 0 {
        lemma_mul_un8_0(s.a as int);
        lemma_mul_un8_0(bd.a as int);
        let ra = bd.a as int;
        assert((s.r as int - bd.r as int) * 0 == 0) by (nonlinear_arith);
        assert((bd.r as int - s.r as int) * 0 == 0) by (nonlinear_arith);
        assert((s.g as int - bd.g as int) * 0 == 0) by (nonlinear_arith);
        assert((bd.g as int - s.g as int) * 0 == 0) by (nonlinear_arith);
        assert((s.b as int - bd.b as int) * 0 == 0) by (nonlinear_arith);
        assert((bd.b as int - s.b as int) * 0 == 0) by (nonlinear_arith);
        vstd::arithmetic::div_mod::lemma_div_of0(ra);
        assert(spec_norm_chan(bd.r as int, s.r as int, 0, ra) == bd.r as int);
        assert(spec_norm_chan(bd.g as int, s.g as int, 0, ra) == bd.g as int);
        assert(spec_norm_chan(bd.b as int, s.b as int, 0, ra) == bd.b as int);
    }
}

/// Blending at full opacity onto a fully transparent backdrop yields the
/// source pixel exactly (its alpha scaled only by its own value).
pub proof fn lemma_normal_transparent_backdrop(bd: Rgba8, s: Rgba8)
    requires
        bd.a == 0,
    ensures
        spec_normal(bd, s, 255) == s,
{
    lemma_mul_un8_255(s.a as int);
}

} // verus!
