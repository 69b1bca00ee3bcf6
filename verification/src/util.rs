//! Utilities around the rendered image data: border extrusion for texture
//! atlases, and mapping truecolor pixels back to palette indices.

use crate::file::Bitmap;
use crate::palette::ColorPalette;
use vstd::prelude::*;

verus! {

/// Clamp `v - 1` into `0..=hi`, the source coordinate of an extruded pixel.
pub open spec fn spec_extrude_coord(v: int, hi: int) -> int {
    if v <= 0 {
        0
    } else if v - 1 >= hi {
        hi
    } else {
        v - 1
    }
}

/// The extruded image as a sequence: output pixel (x, y) is the input pixel
/// at the clamped coordinates (x-1, y-1).
pub open spec fn spec_extruded(image: &Bitmap) -> Seq<crate::blend::Rgba8> {
    Seq::new(
        ((image.spec_width() + 2) as nat) * ((image.spec_height() + 2) as nat),
        |i: int|
            image.spec_pixel(
                spec_extrude_coord(i % (image.spec_width() + 2) as int, image.spec_width() as int - 1),
                spec_extrude_coord(i / (image.spec_width() + 2) as int, image.spec_height() as int - 1),
            ),
    )
}

/// Surround the image with a one-pixel border that duplicates the outermost
/// pixels: output pixel (x, y) is the input pixel at the clamped coordinates
/// (x-1, y-1).
pub fn extrude_border(image: Bitmap) -> (r: Bitmap)
    requires
        image.wf(),
        1 <= image.spec_width() <= 0xfffd,
        1 <= image.spec_height() <= 0xfffd,
    ensures
        r.wf(),
        r.spec_width() == image.spec_width() + 2,
        r.spec_height() == image.spec_height() + 2,
        r.spec_data() == spec_extruded(&image),
{
    let w = image.width();
    let h = image.height();
    let ow: u16 = w + 2;
    let oh: u16 = h + 2;
    let ghost target = spec_extruded(&image);
    let mut out = Bitmap::new(ow, oh);
    let mut y: u16 = 0;
    while y < oh
        invariant
            image.wf(),
            1 <= w <= 0xfffd,
            1 <= h <= 0xfffd,
            w == image.spec_width(),
            h == image.spec_height(),
            ow == w + 2,
            oh == h + 2,
            y <= oh,
            out.wf(),
            out.spec_width() == ow,
            out.spec_height() == oh,
            target == spec_extruded(&image),
            target.len() == ow as int * oh as int,
            forall|i: int| 0 <= i < y as int * ow as int ==> out.spec_data()[i] == target[i],
        decreases oh - y,
    {
        let sy: u16 = if y == 0 {
            0
        } else if y - 1 >= h {
            h - 1
        } else {
            y - 1
        };
        let mut x: u16 = 0;
        while x < ow
            invariant
                image.wf(),
                1 <= w <= 0xfffd,
                1 <= h <= 0xfffd,
                w == image.spec_width(),
                h == image.spec_height(),
                ow == w + 2,
                oh == h + 2,
                y < oh,
                x <= ow,
                sy as int == spec_extrude_coord(y as int, h as int - 1),
                sy < h,
                out.wf(),
                out.spec_width() == ow,
                out.spec_height() == oh,
                target == spec_extruded(&image),
                target.len() == ow as int * oh as int,
                forall|i: int|
                    0 <= i < y as int * ow as int + x as int ==> out.spec_data()[i] == target[i],
            decreases ow - x,
        {
            let sx: u16 = if x == 0 {
                0
            } else if x - 1 >= w {
                w - 1
            } else {
                x - 1
            };
            let p = image.get_pixel(sx, sy);
            let ghost i = y as int * ow as int + x as int;
            proof {
                crate::file::lemma_row_major_bound(x as int, y as int, ow as int, oh as int);
                vstd::arithmetic::div_mod::lemma_fundamental_div_mod_converse_div(
                    i,
                    ow as int,
                    y as int,
                    x as int,
                );
                vstd::arithmetic::div_mod::lemma_fundamental_div_mod_converse_mod(
                    i,
                    ow as int,
                    y as int,
                    x as int,
                );
            }
            out.put_pixel(x, y, p);
            proof {
                assert(out.spec_data()[i] == target[i]);
            }
            x = x + 1;
        }
        y = y + 1;
        proof {
            assert(y as int * ow as int == (y - 1) as int * ow as int + ow as int)
                by (nonlinear_arith);
        }
    }
    proof {
        assert(oh as int * ow as int == ow as int * oh as int) by (nonlinear_arith);
        assert(out.spec_data() =~= target);
    }
    out
}

/// Configuration of palette mapping.
pub struct MappingOptions {
    /// The index used when a pixel's color is not in the palette.
    pub failure: u8,
    /// The index used for transparent pixels (alpha below 255); `None`
    /// treats them as failures.
    pub transparent: Option<u8>,
}

/// Maps truecolor values back to palette indices.
pub struct PaletteMapper {
    entries: Vec<(u32, u8)>,
    transparent: u8,
    failure: u8,
}

/// The packed key of an opaque color: red, green and blue in one word.
pub open spec fn spec_color_key(r: u8, g: u8, b: u8) -> u32 {
    (r + g * 0x100 + b * 0x10000) as u32
}

impl PaletteMapper {
    /// The key-to-index pairs, in palette order.
    pub closed spec fn spec_entries(&self) -> Seq<(u32, u8)> {
        self.entries@
    }

    /// The index for transparent pixels.
    pub closed spec fn spec_transparent(&self) -> u8 {
        self.transparent
    }

    /// The index for unmapped colors.
    pub closed spec fn spec_failure(&self) -> u8 {
        self.failure
    }

    /// Build a mapper from a palette. Palette indices above 255 map to the
    /// failure index.
    pub fn new(palette: &ColorPalette, options: MappingOptions) -> (r: PaletteMapper)
        ensures
            r.spec_failure() == options.failure,
            match options.transparent {
                Some(t) => r.spec_transparent() == t,
                None => r.spec_transparent() == options.failure,
            },
    {
        let src = palette.entries_vec();
        let mut entries: Vec<(u32, u8)> = Vec::new();
        let mut i: usize = 0;
        while i < src.len()
            invariant
                i <= src@.len(),
            decreases src@.len() - i,
        {
            let e = &src[i];
            let c = e.rgba();
            let m: u32 = (c.r as u32) + (c.g as u32) * 0x100 + (c.b as u32) * 0x10000;
            let idx = e.id();
            let col: u8 = if idx < 256 {
                idx as u8
            } else {
                options.failure
            };
            // replace an earlier pair with the same key, as a keyed map would
            let mut j: usize = 0;
            let mut replaced = false;
            while j < entries.len()
                invariant_except_break
                    !replaced,
                ensures
                    true,
                decreases entries@.len() - j,
            {
                if entries[j].0 == m {
                    entries.set(j, (m, col));
                    replaced = true;
                    break ;
                }
                j = j + 1;
            }
            if !replaced {
                entries.push((m, col));
            }
            i = i + 1;
        }
        let transparent: u8 = match options.transparent {
            Some(t) => t,
            None => options.failure,
        };
        PaletteMapper { entries, transparent, failure: options.failure }
    }

    /// Look up a color: any alpha below 255 maps to the transparent index,
    /// an unknown color to the failure index.
    pub fn lookup(&self, r: u8, g: u8, b: u8, alpha: u8) -> (res: u8)
        ensures
            alpha != 255 ==> res == self.spec_transparent(),
            alpha == 255 && (forall|i: int|
                0 <= i < self.spec_entries().len() ==> self.spec_entries()[i].0 != spec_color_key(
                    r,
                    g,
                    b,
                )) ==> res == self.spec_failure(),
    {
        if alpha != 255 {
            return self.transparent;
        }
        let m: u32 = (r as u32) + (g as u32) * 0x100 + (b as u32) * 0x10000;
        let mut j: usize = 0;
        while j < self.entries.len()
            invariant
                alpha == 255,
                j <= self.spec_entries().len(),
                forall|i: int| 0 <= i < j ==> self.spec_entries()[i].0 != spec_color_key(r, g, b),
                m == spec_color_key(r, g, b),
            decreases self.spec_entries().len() - j,
        {
            if self.entries[j].0 == m {
                return self.entries[j].1;
            }
            j = j + 1;
        }
        self.failure
    }
}

/// Map every pixel of an image to a palette index; yields the image's
/// dimensions and the index bytes in row-major order.
pub fn to_indexed_image(image: Bitmap, mapper: &PaletteMapper) -> (r: ((u32, u32), Vec<u8>))
    requires
        image.wf(),
    ensures
        r.0.0 == image.spec_width(),
        r.0.1 == image.spec_height(),
        r.1@.len() == image.spec_data().len(),
{
    let mut data: Vec<u8> = Vec::new();
    proof {
        assert(image.spec_width() as int * image.spec_height() as int <= 0xffff * 0xffff)
            by (nonlinear_arith)
            requires
                image.spec_width() <= 0xffff && image.spec_height() <= 0xffff,
        ;
    }
    let n = (image.width() as usize) * (image.height() as usize);
    let raw = image.to_raw_rgba8();
    let rl = raw.len();
    let mut i: usize = 0;
    while i < n
        invariant
            n == image.spec_data().len(),
            raw@.len() == 4 * n,
            rl == raw@.len(),
            rl <= usize::MAX,
            i <= n,
            data@.len() == i,
        decreases n - i,
    {
        let r = raw[4 * i];
        let g = raw[4 * i + 1];
        let b = raw[4 * i + 2];
        let a = raw[4 * i + 3];
        data.push(mapper.lookup(r, g, b, a));
        i = i + 1;
    }
    ((image.width() as u32, image.height() as u32), data)
}

} // verus!
