//! The blend modes that the reference application computes over doubles:
//! Soft Light and the four HSL modes (Hue, Saturation, Color, Luminosity).
//!
//! All arithmetic goes through the bit-exact double emulation in `fp`, so
//! the results match the reference application's hardware-float results bit
//! for bit — including the deliberately preserved channel-ordering bug in
//! `static_sort3_orig` (see there).

use crate::blend::{blender_with, normal, spec_blender, spec_normal, Rgba8};
use crate::fp;
use vstd::prelude::*;

verus! {

/// The double encoding of 0.25.
pub const F_QUARTER: u64 = 0x3fd0000000000000;

/// The double encoding of 0.5.
pub const F_HALF: u64 = 0x3fe0000000000000;

/// The double encoding of 1.0.
pub const F_ONE: u64 = 0x3ff0000000000000;

/// The double encoding of 2.0.
pub const F_TWO: u64 = 0x4000000000000000;

/// The double encoding of 4.0.
pub const F_FOUR: u64 = 0x4010000000000000;

/// The double encoding of 12.0.
pub const F_TWELVE: u64 = 0x4028000000000000;

/// The double encoding of 16.0.
pub const F_SIXTEEN: u64 = 0x4030000000000000;

/// The double encoding of 255.0.
pub const F_255: u64 = 0x406fe00000000000;

/// The double encoding of 0.3, the red weight of the luminosity formula.
pub const F_LUM_R: u64 = 0x3fd3333333333333;

/// The double encoding of 0.59, the green weight of the luminosity formula.
pub const F_LUM_G: u64 = 0x3fe2e147ae147ae1;

/// The double encoding of 0.11, the blue weight of the luminosity formula.
pub const F_LUM_B: u64 = 0x3fbc28f5c28f5c29;

/// The larger of two doubles (the second when they compare equal).
pub open spec fn spec_fmax(a: u64, b: u64) -> u64 {
    if fp::spec_flt(b, a) {
        a
    } else {
        b
    }
}

/// The larger of two doubles.
pub fn fmax(a: u64, b: u64) -> (r: u64)
    ensures
        r == spec_fmax(a, b),
{
    if fp::flt(b, a) {
        a
    } else {
        b
    }
}

/// The smaller of two doubles (the second when they compare equal).
pub open spec fn spec_fmin(a: u64, b: u64) -> u64 {
    if fp::spec_flt(a, b) {
        a
    } else {
        b
    }
}

/// The smaller of two doubles.
pub fn fmin(a: u64, b: u64) -> (r: u64)
    ensures
        r == spec_fmin(a, b),
{
    if fp::flt(a, b) {
        a
    } else {
        b
    }
}

/// A channel byte mapped into [0, 1]: `c / 255.0`.
pub open spec fn spec_unit(c: u8) -> u64 {
    fp::spec_fdiv(fp::spec_from_u32(c as u32), F_255)
}

fn unit(c: u8) -> (r: u64)
    ensures
        r == spec_unit(c),
{
    fp::fdiv(fp::from_u32(c as u32), F_255)
}

/// The luminosity of unit channels: `0.3*r + 0.59*g + 0.11*b`.
pub open spec fn spec_lum(r: u64, g: u64, b: u64) -> u64 {
    fp::spec_fadd(
        fp::spec_fadd(fp::spec_fmul(F_LUM_R, r), fp::spec_fmul(F_LUM_G, g)),
        fp::spec_fmul(F_LUM_B, b),
    )
}

fn lum(r: u64, g: u64, b: u64) -> (res: u64)
    ensures
        res == spec_lum(r, g, b),
{
    fp::fadd(fp::fadd(fp::fmul(F_LUM_R, r), fp::fmul(F_LUM_G, g)), fp::fmul(F_LUM_B, b))
}

/// The saturation (chroma) of unit channels: `max - min`.
pub open spec fn spec_sat(r: u64, g: u64, b: u64) -> u64 {
    fp::spec_fsub(spec_fmax(r, spec_fmax(g, b)), spec_fmin(r, spec_fmin(g, b)))
}

fn sat(r: u64, g: u64, b: u64) -> (res: u64)
    ensures
        res == spec_sat(r, g, b),
{
    fp::fsub(fmax(r, fmax(g, b)), fmin(r, fmin(g, b)))
}

/// Rescale out-of-[0,1] channels back into range, anchored on luminosity.
pub open spec fn spec_clip_color(r0: u64, g0: u64, b0: u64) -> (u64, u64, u64) {
    let l = spec_lum(r0, g0, b0);
    let n = spec_fmin(r0, spec_fmin(g0, b0));
    let x = spec_fmax(r0, spec_fmax(g0, b0));
    let (r1, g1, b1): (u64, u64, u64) = if fp::spec_flt(n, 0) {
        let d = fp::spec_fsub(l, n);
        (
            fp::spec_fadd(l, fp::spec_fdiv(fp::spec_fmul(fp::spec_fsub(r0, l), l), d)),
            fp::spec_fadd(l, fp::spec_fdiv(fp::spec_fmul(fp::spec_fsub(g0, l), l), d)),
            fp::spec_fadd(l, fp::spec_fdiv(fp::spec_fmul(fp::spec_fsub(b0, l), l), d)),
        )
    } else {
        (r0, g0, b0)
    };
    if fp::spec_flt(F_ONE, x) {
        let d = fp::spec_fsub(x, l);
        let u = fp::spec_fsub(F_ONE, l);
        (
            fp::spec_fadd(l, fp::spec_fdiv(fp::spec_fmul(fp::spec_fsub(r1, l), u), d)),
            fp::spec_fadd(l, fp::spec_fdiv(fp::spec_fmul(fp::spec_fsub(g1, l), u), d)),
            fp::spec_fadd(l, fp::spec_fdiv(fp::spec_fmul(fp::spec_fsub(b1, l), u), d)),
        )
    } else {
        (r1, g1, b1)
    }
}

fn clip_color(r0: u64, g0: u64, b0: u64) -> (res: (u64, u64, u64))
    ensures
        res == spec_clip_color(r0, g0, b0),
{
    let l = lum(r0, g0, b0);
    let n = fmin(r0, fmin(g0, b0));
    let x = fmax(r0, fmax(g0, b0));
    let mut r = r0;
    let mut g = g0;
    let mut b = b0;
    if fp::flt(n, 0) {
        let d = fp::fsub(l, n);
        r = fp::fadd(l, fp::fdiv(fp::fmul(fp::fsub(r, l), l), d));
        g = fp::fadd(l, fp::fdiv(fp::fmul(fp::fsub(g, l), l), d));
        b = fp::fadd(l, fp::fdiv(fp::fmul(fp::fsub(b, l), l), d));
    }
    if fp::flt(F_ONE, x) {
        let d = fp::fsub(x, l);
        let u = fp::fsub(F_ONE, l);
        r = fp::fadd(l, fp::fdiv(fp::fmul(fp::fsub(r, l), u), d));
        g = fp::fadd(l, fp::fdiv(fp::fmul(fp::fsub(g, l), u), d));
        b = fp::fadd(l, fp::fdiv(fp::fmul(fp::fsub(b, l), u), d));
    }
    (r, g, b)
}

/// Shift the channels so that their luminosity becomes `target`, clipping
/// afterwards.
pub open spec fn spec_set_lum(r: u64, g: u64, b: u64, target: u64) -> (u64, u64, u64) {
    let delta = fp::spec_fsub(target, spec_lum(r, g, b));
    spec_clip_color(
        fp::spec_fadd(r, delta),
        fp::spec_fadd(g, delta),
        fp::spec_fadd(b, delta),
    )
}

fn set_lum(r: u64, g: u64, b: u64, target: u64) -> (res: (u64, u64, u64))
    ensures
        res == spec_set_lum(r, g, b, target),
{
    let delta = fp::fsub(target, lum(r, g, b));
    clip_color(fp::fadd(r, delta), fp::fadd(g, delta), fp::fadd(b, delta))
}

/// The channel at position `i` of the triple.
pub open spec fn spec_pick(c0: u64, c1: u64, c2: u64, i: int) -> u64 {
    if i == 0 {
        c0
    } else if i == 1 {
        c1
    } else {
        c2
    }
}

/// The triple with position `i` replaced by `v`.
pub open spec fn spec_put(c0: u64, c1: u64, c2: u64, i: int, v: u64) -> (u64, u64, u64) {
    if i == 0 {
        (v, c1, c2)
    } else if i == 1 {
        (c0, v, c2)
    } else {
        (c0, c1, v)
    }
}

/// The reference application's three-way comparison ladder that names the
/// positions of the smallest, middle and largest channel. The ladder is
/// deliberately wrong when two channels are exactly equal in particular
/// orders (it can name the same position twice), and that behavior is
/// preserved here for bit-for-bit compatibility.
pub open spec fn spec_static_sort3_orig(r: u64, g: u64, b: u64) -> (int, int, int) {
    let mn: int = if fp::spec_flt(r, spec_fmin(g, b)) {
        0
    } else if fp::spec_flt(g, b) {
        1
    } else {
        2
    };
    let mx: int = if fp::spec_flt(spec_fmax(g, b), r) {
        0
    } else if fp::spec_flt(b, g) {
        1
    } else {
        2
    };
    let md: int = if fp::spec_flt(g, r) {
        if fp::spec_flt(b, g) {
            1
        } else if fp::spec_flt(b, r) {
            2
        } else {
            0
        }
    } else {
        if fp::spec_flt(b, g) {
            if fp::spec_flt(r, b) {
                2
            } else {
                0
            }
        } else {
            1
        }
    };
    (mn, md, mx)
}

/// The buggy min/mid/max position ladder; see `spec_static_sort3_orig`.
pub fn static_sort3_orig(r: u64, g: u64, b: u64) -> (res: (usize, usize, usize))
    ensures
        (res.0 as int, res.1 as int, res.2 as int) == spec_static_sort3_orig(r, g, b),
        res.0 < 3 && res.1 < 3 && res.2 < 3,
{
    let mn: usize = if fp::flt(r, fmin(g, b)) {
        0
    } else if fp::flt(g, b) {
        1
    } else {
        2
    };
    let mx: usize = if fp::flt(fmax(g, b), r) {
        0
    } else if fp::flt(b, g) {
        1
    } else {
        2
    };
    let md: usize = if fp::flt(g, r) {
        if fp::flt(b, g) {
            1
        } else if fp::flt(b, r) {
            2
        } else {
            0
        }
    } else {
        if fp::flt(b, g) {
            if fp::flt(r, b) {
                2
            } else {
                0
            }
        } else {
            1
        }
    };
    (mn, md, mx)
}

/// A correct min/mid/max position sort, written as a static sorting network.
/// It is not used by the blend pipeline (the buggy ladder above is), but
/// documents what the ladder should have computed.
pub fn static_sort3(r: u64, g: u64, b: u64) -> (res: (usize, usize, usize))
    ensures
        res.0 < 3 && res.1 < 3 && res.2 < 3,
        !(fp::spec_is_nan(r) || fp::spec_is_nan(g) || fp::spec_is_nan(b)) ==> {
            let v0 = spec_pick(r, g, b, res.0 as int);
            let v1 = spec_pick(r, g, b, res.1 as int);
            let v2 = spec_pick(r, g, b, res.2 as int);
            !fp::spec_flt(v1, v0) && !fp::spec_flt(v2, v1)
        },
{
    let (min0v, min0i): (u64, usize) = (r, 0);
    let (mid0v, mid0i): (u64, usize) = (g, 1);
    let (max0v, max0i): (u64, usize) = (b, 2);
    let (min1v, min1i, mid1v, mid1i): (u64, usize, u64, usize) = if fp::flt(min0v, mid0v) {
        (min0v, min0i, mid0v, mid0i)
    } else {
        (mid0v, mid0i, min0v, min0i)
    };
    let (min2v, min2i, max1v, max1i): (u64, usize, u64, usize) = if fp::flt(min1v, max0v) {
        (min1v, min1i, max0v, max0i)
    } else {
        (max0v, max0i, min1v, min1i)
    };
    let (mid2v, mid2i, max2v, max2i): (u64, usize, u64, usize) = if fp::flt(mid1v, max1v) {
        (mid1v, mid1i, max1v, max1i)
    } else {
        (max1v, max1i, mid1v, mid1i)
    };
    (min2i, mid2i, max2i)
}

/// Transplant the saturation `target` onto the channels, using the buggy
/// position ladder, with assignments applied in the reference order
/// (middle, then largest, then smallest).
pub open spec fn spec_set_saturation(r: u64, g: u64, b: u64, target: u64) -> (u64, u64, u64) {
    let (mn, md, mx) = spec_static_sort3_orig(r, g, b);
    let vmin = spec_pick(r, g, b, mn);
    let vmid = spec_pick(r, g, b, md);
    let vmax = spec_pick(r, g, b, mx);
    let (c0, c1, c2): (u64, u64, u64) = if fp::spec_flt(vmin, vmax) {
        let nm = fp::spec_fdiv(
            fp::spec_fmul(fp::spec_fsub(vmid, vmin), target),
            fp::spec_fsub(vmax, vmin),
        );
        let (d0, d1, d2) = spec_put(r, g, b, md, nm);
        spec_put(d0, d1, d2, mx, target)
    } else {
        let (d0, d1, d2) = spec_put(r, g, b, md, 0);
        spec_put(d0, d1, d2, mx, 0)
    };
    spec_put(c0, c1, c2, mn, 0)
}

fn put(c0: u64, c1: u64, c2: u64, i: usize, v: u64) -> (res: (u64, u64, u64))
    requires
        i < 3,
    ensures
        res == spec_put(c0, c1, c2, i as int, v),
{
    if i == 0 {
        (v, c1, c2)
    } else if i == 1 {
        (c0, v, c2)
    } else {
        (c0, c1, v)
    }
}

fn pick(c0: u64, c1: u64, c2: u64, i: usize) -> (res: u64)
    requires
        i < 3,
    ensures
        res == spec_pick(c0, c1, c2, i as int),
{
    if i == 0 {
        c0
    } else if i == 1 {
        c1
    } else {
        c2
    }
}

fn set_saturation(r: u64, g: u64, b: u64, target: u64) -> (res: (u64, u64, u64))
    ensures
        res == spec_set_saturation(r, g, b, target),
{
    let (mn, md, mx) = static_sort3_orig(r, g, b);
    let vmin = pick(r, g, b, mn);
    let vmid = pick(r, g, b, md);
    let vmax = pick(r, g, b, mx);
    let (c0, c1, c2): (u64, u64, u64) = if fp::flt(vmin, vmax) {
        let nm = fp::fdiv(fp::fmul(fp::fsub(vmid, vmin), target), fp::fsub(vmax, vmin));
        let (d0, d1, d2) = put(r, g, b, md, nm);
        put(d0, d1, d2, mx, target)
    } else {
        let (d0, d1, d2) = put(r, g, b, md, 0);
        put(d0, d1, d2, mx, 0)
    };
    put(c0, c1, c2, mn, 0)
}

/// What one channel of the Soft Light formula yields (per the PDF
/// blend-mode addendum),
/// computed over unit doubles and rounded back to an integer with the
/// reference `(x * 255 + 0.5)` cast.
pub open spec fn spec_soft_light_chan(bc: u8, sc: u8) -> int {
    let b = spec_unit(bc);
    let s = spec_unit(sc);
    let d: u64 = if fp::spec_fle(b, F_QUARTER) {
        fp::spec_fmul(
            fp::spec_fadd(
                fp::spec_fmul(fp::spec_fsub(fp::spec_fmul(F_SIXTEEN, b), F_TWELVE), b),
                F_FOUR,
            ),
            b,
        )
    } else {
        fp::spec_fsqrt(b)
    };
    let r: u64 = if fp::spec_fle(s, F_HALF) {
        fp::spec_fsub(
            b,
            fp::spec_fmul(
                fp::spec_fmul(fp::spec_fsub(F_ONE, fp::spec_fmul(F_TWO, s)), b),
                fp::spec_fsub(F_ONE, b),
            ),
        )
    } else {
        fp::spec_fadd(b, fp::spec_fmul(fp::spec_fsub(fp::spec_fmul(F_TWO, s), F_ONE), fp::spec_fsub(d, b)))
    };
    fp::spec_fto_u32(fp::spec_fadd(fp::spec_fmul(r, F_255), F_HALF)) % 256
}

pub fn blend_soft_light(bc: u8, sc: u8) -> (res: u8)
    ensures
        res as int == spec_soft_light_chan(bc, sc),
{
    let b = unit(bc);
    let s = unit(sc);
    let d: u64 = if fp::fle(b, F_QUARTER) {
        fp::fmul(fp::fadd(fp::fmul(fp::fsub(fp::fmul(F_SIXTEEN, b), F_TWELVE), b), F_FOUR), b)
    } else {
        fp::fsqrt(b)
    };
    let r: u64 = if fp::fle(s, F_HALF) {
        fp::fsub(
            b,
            fp::fmul(fp::fmul(fp::fsub(F_ONE, fp::fmul(F_TWO, s)), b), fp::fsub(F_ONE, b)),
        )
    } else {
        fp::fadd(b, fp::fmul(fp::fsub(fp::fmul(F_TWO, s), F_ONE), fp::fsub(d, b)))
    };
    let u = fp::fto_u32(fp::fadd(fp::fmul(r, F_255), F_HALF));
    proof {
        vstd::arithmetic::div_mod::lemma_mod_bound(u as int, 256);
    }
    (u % 256) as u8
}

/// Convert unit doubles back to color channels with the reference
/// `(x * 255.0) as i32 as u8` wrap, keeping the given alpha.
pub open spec fn spec_rgb_from_units(r: u64, g: u64, b: u64, a: u8) -> Rgba8 {
    Rgba8 {
        r: fp::spec_wrap_u8(fp::spec_fto_i32(fp::spec_fmul(r, F_255))) as u8,
        g: fp::spec_wrap_u8(fp::spec_fto_i32(fp::spec_fmul(g, F_255))) as u8,
        b: fp::spec_wrap_u8(fp::spec_fto_i32(fp::spec_fmul(b, F_255))) as u8,
        a,
    }
}

fn rgb_from_units(r: u64, g: u64, b: u64, a: u8) -> (res: Rgba8)
    ensures
        res == spec_rgb_from_units(r, g, b, a),
{
    Rgba8 {
        r: fp::wrap_u8(fp::fto_i32(fp::fmul(r, F_255))),
        g: fp::wrap_u8(fp::fto_i32(fp::fmul(g, F_255))),
        b: fp::wrap_u8(fp::fto_i32(fp::fmul(b, F_255))),
        a,
    }
}

/// The Soft Light blend mode.
pub open spec fn spec_soft_light(bd: Rgba8, s: Rgba8, opacity: int) -> Rgba8 {
    let base = spec_normal(
        bd,
        Rgba8 {
            r: spec_soft_light_chan(bd.r, s.r) as u8,
            g: spec_soft_light_chan(bd.g, s.g) as u8,
            b: spec_soft_light_chan(bd.b, s.b) as u8,
            a: s.a,
        },
        opacity,
    );
    spec_blender(bd, s, opacity, base)
}

/// Soft light blend of two pixels.
pub fn soft_light(backdrop: Rgba8, src: Rgba8, opacity: u8) -> (res: Rgba8)
    ensures
        res == spec_soft_light(backdrop, src, opacity as int),
{
    let base = normal(
        backdrop,
        Rgba8 {
            r: blend_soft_light(backdrop.r, src.r),
            g: blend_soft_light(backdrop.g, src.g),
            b: blend_soft_light(backdrop.b, src.b),
            a: src.a,
        },
        opacity,
    );
    blender_with(backdrop, src, opacity, base)
}

/// The Hue blend mode: the source's hue with the backdrop's saturation and
/// luminosity.
pub open spec fn spec_hsl_hue(bd: Rgba8, s: Rgba8, opacity: int) -> Rgba8 {
    let br = spec_unit(bd.r);
    let bg = spec_unit(bd.g);
    let bb = spec_unit(bd.b);
    let sat0 = spec_sat(br, bg, bb);
    let lum0 = spec_lum(br, bg, bb);
    let sr = spec_unit(s.r);
    let sg = spec_unit(s.g);
    let sb = spec_unit(s.b);
    let (r1, g1, b1) = spec_set_saturation(sr, sg, sb, sat0);
    let (r2, g2, b2) = spec_set_lum(r1, g1, b1, lum0);
    let base = spec_normal(bd, spec_rgb_from_units(r2, g2, b2, s.a), opacity);
    spec_blender(bd, s, opacity, base)
}

/// Hue blend of two pixels.
pub fn hsl_hue(backdrop: Rgba8, src: Rgba8, opacity: u8) -> (res: Rgba8)
    ensures
        res == spec_hsl_hue(backdrop, src, opacity as int),
{
    let br = unit(backdrop.r);
    let bg = unit(backdrop.g);
    let bb = unit(backdrop.b);
    let sat0 = sat(br, bg, bb);
    let lum0 = lum(br, bg, bb);
    let sr = unit(src.r);
    let sg = unit(src.g);
    let sb = unit(src.b);
    let (r1, g1, b1) = set_saturation(sr, sg, sb, sat0);
    let (r2, g2, b2) = set_lum(r1, g1, b1, lum0);
    let base = normal(backdrop, rgb_from_units(r2, g2, b2, src.a), opacity);
    blender_with(backdrop, src, opacity, base)
}

/// The Saturation blend mode: the source's saturation with the backdrop's
/// hue and luminosity.
pub open spec fn spec_hsl_saturation(bd: Rgba8, s: Rgba8, opacity: int) -> Rgba8 {
    let sr = spec_unit(s.r);
    let sg = spec_unit(s.g);
    let sb = spec_unit(s.b);
    let sat0 = spec_sat(sr, sg, sb);
    let br = spec_unit(bd.r);
    let bg = spec_unit(bd.g);
    let bb = spec_unit(bd.b);
    let lum0 = spec_lum(br, bg, bb);
    let (r1, g1, b1) = spec_set_saturation(br, bg, bb, sat0);
    let (r2, g2, b2) = spec_set_lum(r1, g1, b1, lum0);
    let base = spec_normal(bd, spec_rgb_from_units(r2, g2, b2, s.a), opacity);
    spec_blender(bd, s, opacity, base)
}

/// Saturation blend of two pixels.
pub fn hsl_saturation(backdrop: Rgba8, src: Rgba8, opacity: u8) -> (res: Rgba8)
    ensures
        res == spec_hsl_saturation(backdrop, src, opacity as int),
{
    let sr = unit(src.r);
    let sg = unit(src.g);
    let sb = unit(src.b);
    let sat0 = sat(sr, sg, sb);
    let br = unit(backdrop.r);
    let bg = unit(backdrop.g);
    let bb = unit(backdrop.b);
    let lum0 = lum(br, bg, bb);
    let (r1, g1, b1) = set_saturation(br, bg, bb, sat0);
    let (r2, g2, b2) = set_lum(r1, g1, b1, lum0);
    let base = normal(backdrop, rgb_from_units(r2, g2, b2, src.a), opacity);
    blender_with(backdrop, src, opacity, base)
}

/// The Color blend mode: the source's hue and saturation with the backdrop's
/// luminosity.
pub open spec fn spec_hsl_color(bd: Rgba8, s: Rgba8, opacity: int) -> Rgba8 {
    let br = spec_unit(bd.r);
    let bg = spec_unit(bd.g);
    let bb = spec_unit(bd.b);
    let lum0 = spec_lum(br, bg, bb);
    let sr = spec_unit(s.r);
    let sg = spec_unit(s.g);
    let sb = spec_unit(s.b);
    let (r2, g2, b2) = spec_set_lum(sr, sg, sb, lum0);
    let base = spec_normal(bd, spec_rgb_from_units(r2, g2, b2, s.a), opacity);
    spec_blender(bd, s, opacity, base)
}

/// Color blend of two pixels.
pub fn hsl_color(backdrop: Rgba8, src: Rgba8, opacity: u8) -> (res: Rgba8)
    ensures
        res == spec_hsl_color(backdrop, src, opacity as int),
{
    let br = unit(backdrop.r);
    let bg = unit(backdrop.g);
    let bb = unit(backdrop.b);
    let lum0 = lum(br, bg, bb);
    let sr = unit(src.r);
    let sg = unit(src.g);
    let sb = unit(src.b);
    let (r2, g2, b2) = set_lum(sr, sg, sb, lum0);
    let base = normal(backdrop, rgb_from_units(r2, g2, b2, src.a), opacity);
    blender_with(backdrop, src, opacity, base)
}

/// The Luminosity blend mode: the source's luminosity with the backdrop's
/// hue and saturation.
pub open spec fn spec_hsl_luminosity(bd: Rgba8, s: Rgba8, opacity: int) -> Rgba8 {
    let sr = spec_unit(s.r);
    let sg = spec_unit(s.g);
    let sb = spec_unit(s.b);
    let lum0 = spec_lum(sr, sg, sb);
    let br = spec_unit(bd.r);
    let bg = spec_unit(bd.g);
    let bb = spec_unit(bd.b);
    let (r2, g2, b2) = spec_set_lum(br, bg, bb, lum0);
    let base = spec_normal(bd, spec_rgb_from_units(r2, g2, b2, s.a), opacity);
    spec_blender(bd, s, opacity, base)
}

/// Luminosity blend of two pixels.
pub fn hsl_luminosity(backdrop: Rgba8, src: Rgba8, opacity: u8) -> (res: Rgba8)
    ensures
        res == spec_hsl_luminosity(backdrop, src, opacity as int),
{
    let sr = unit(src.r);
    let sg = unit(src.g);
    let sb = unit(src.b);
    let lum0 = lum(sr, sg, sb);
    let br = unit(backdrop.r);
    let bg = unit(backdrop.g);
    let bb = unit(backdrop.b);
    let (r2, g2, b2) = set_lum(br, bg, bb, lum0);
    let base = normal(backdrop, rgb_from_units(r2, g2, b2, src.a), opacity);
    blender_with(backdrop, src, opacity, base)
}

} // verus!
