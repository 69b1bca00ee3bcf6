//! The assembled document and the frame compositor.

use vstd::prelude::*;

verus! {

/// Pixel format of the source document.
#[derive(Debug, Clone, Copy, PartialEq, Eq, Structural)]
pub enum PixelFormat {
    /// Red, green, blue and alpha with 8 bits each.
    Rgba,
    /// 8-bit grayscale plus 8-bit alpha.
    Grayscale,
    /// Indexed color, resolved through the palette. The transparent index
    /// reads as fully transparent on non-background layers.
    Indexed {
        /// The palette index that encodes transparency.
        transparent_color_index: u8,
    },
}

/// Bytes used to store one pixel of the given format.
pub open spec fn spec_bytes_per_pixel(f: PixelFormat) -> int {
    match f {
        PixelFormat::Rgba => 4,
        PixelFormat::Grayscale => 2,
        PixelFormat::Indexed { .. } => 1,
    }
}

/// Bytes used to store one pixel of the given format.
pub fn bytes_per_pixel_of(f: PixelFormat) -> (r: usize)
    ensures
        r == spec_bytes_per_pixel(f),
        1 <= r <= 4,
{
    match f {
        PixelFormat::Rgba => 4,
        PixelFormat::Grayscale => 2,
        PixelFormat::Indexed { .. } => 1,
    }
}

impl PixelFormat {
    /// Number of bytes used to store one pixel.
    pub fn bytes_per_pixel(&self) -> (r: usize)
        ensures
            r == spec_bytes_per_pixel(*self),
    {
        bytes_per_pixel_of(*self)
    }

    /// For the indexed format, the index of the transparent color.
    pub fn transparent_color_index(&self) -> (r: Option<u8>)
        ensures
            match *self {
                PixelFormat::Indexed { transparent_color_index } => r == Some(
                    transparent_color_index,
                ),
                _ => r is None,
            },
    {
        match self {
            PixelFormat::Indexed { transparent_color_index } => Some(*transparent_color_index),
            _ => None,
        }
    }
}

/// A flat RGBA bitmap with row-major pixel storage.
#[derive(Debug)]
pub struct Bitmap {
    width: u16,
    height: u16,
    data: Vec<crate::blend::Rgba8>,
}

impl Bitmap {
    /// Width in pixels.
    pub closed spec fn spec_width(&self) -> u16 {
        self.width
    }

    /// Height in pixels.
    pub closed spec fn spec_height(&self) -> u16 {
        self.height
    }

    /// The pixels, row-major.
    pub closed spec fn spec_data(&self) -> Seq<crate::blend::Rgba8> {
        self.data@
    }

    /// The bitmap holds exactly width * height pixels.
    pub open spec fn wf(&self) -> bool {
        self.spec_data().len() == self.spec_width() as int * self.spec_height() as int
    }

    /// The pixel at (x, y).
    pub open spec fn spec_pixel(&self, x: int, y: int) -> crate::blend::Rgba8 {
        self.spec_data()[y * self.spec_width() as int + x]
    }

    /// A fully transparent bitmap of the given size.
    pub fn new(width: u16, height: u16) -> (r: Bitmap)
        ensures
            r.wf(),
            r.spec_width() == width,
            r.spec_height() == height,
            forall|i: int|
                0 <= i < r.spec_data().len() ==> r.spec_data()[i]
                    == crate::blend::spec_transparent(),
    {
        proof {
            assert(width as int * height as int <= 0xffff * 0xffff) by (nonlinear_arith)
                requires
                    width <= 0xffff && height <= 0xffff,
            ;
        }
        let n: usize = (width as usize) * (height as usize);
        let mut data: Vec<crate::blend::Rgba8> = Vec::new();
        let mut i: usize = 0;
        while i < n
            invariant
                i <= n,
                data@.len() == i,
                forall|j: int|
                    0 <= j < i ==> data@[j] == crate::blend::spec_transparent(),
            decreases n - i,
        {
            data.push(crate::blend::Rgba8::transparent());
            i = i + 1;
        }
        Bitmap { width, height, data }
    }

    /// Width in pixels.
    pub fn width(&self) -> (r: u16)
        ensures
            r == self.spec_width(),
    {
        self.width
    }

    /// Height in pixels.
    pub fn height(&self) -> (r: u16)
        ensures
            r == self.spec_height(),
    {
        self.height
    }

    /// The pixel at (x, y).
    pub fn get_pixel(&self, x: u16, y: u16) -> (r: crate::blend::Rgba8)
        requires
            self.wf(),
            x < self.spec_width(),
            y < self.spec_height(),
        ensures
            r == self.spec_pixel(x as int, y as int),
    {
        proof {
            lemma_row_major_bound(
                x as int,
                y as int,
                self.spec_width() as int,
                self.spec_height() as int,
            );
        }
        self.data[(y as usize) * (self.width as usize) + (x as usize)]
    }

    /// Replace the pixel at (x, y).
    pub fn put_pixel(&mut self, x: u16, y: u16, p: crate::blend::Rgba8)
        requires
            old(self).wf(),
            x < old(self).spec_width(),
            y < old(self).spec_height(),
        ensures
            final(self).wf(),
            final(self).spec_width() == old(self).spec_width(),
            final(self).spec_height() == old(self).spec_height(),
            final(self).spec_data() == old(self).spec_data().update(
                y as int * old(self).spec_width() as int + x as int,
                p,
            ),
    {
        proof {
            lemma_row_major_bound(
                x as int,
                y as int,
                self.spec_width() as int,
                self.spec_height() as int,
            );
        }
        self.data.set((y as usize) * (self.width as usize) + (x as usize), p);
    }

    /// Build a bitmap from row-major pixels.
    pub fn from_pixels(width: u16, height: u16, data: Vec<crate::blend::Rgba8>) -> (r: Option<
        Bitmap,
    >)
        ensures
            r matches Some(b) ==> b.wf() && b.spec_width() == width && b.spec_height() == height
                && b.spec_data() == data@,
            r is None <==> data@.len() != width as int * height as int,
    {
        proof {
            assert(width as int * height as int <= 0xffff * 0xffff) by (nonlinear_arith)
                requires
                    width <= 0xffff && height <= 0xffff,
            ;
        }
        if data.len() == (width as usize) * (height as usize) {
            Some(Bitmap { width, height, data })
        } else {
            None
        }
    }

    /// The pixels flattened to bytes: red, green, blue, alpha per pixel.
    pub fn to_raw_rgba8(&self) -> (r: Vec<u8>)
        ensures
            r@.len() == 4 * self.spec_data().len(),
            forall|i: int|
                #![auto]
                0 <= i < self.spec_data().len() ==> r@[4 * i] == self.spec_data()[i].r && r@[4 * i
                    + 1] == self.spec_data()[i].g && r@[4 * i + 2] == self.spec_data()[i].b && r@[4
                    * i + 3] == self.spec_data()[i].a,
    {
        let mut out: Vec<u8> = Vec::new();
        let n: usize = self.data.len();
        let mut i: usize = 0;
        while i < n
            invariant
                n == self.spec_data().len(),
                i <= self.spec_data().len(),
                out@.len() == 4 * i,
                self.spec_data().len() <= usize::MAX,
                forall|j: int|
                    #![auto]
                    0 <= j < i ==> out@[4 * j] == self.spec_data()[j].r && out@[4 * j + 1]
                        == self.spec_data()[j].g && out@[4 * j + 2] == self.spec_data()[j].b && out@[
                        4 * j + 3] == self.spec_data()[j].a,
            decreases self.spec_data().len() - i,
        {
            let p = self.data[i];
            out.push(p.r);
            out.push(p.g);
            out.push(p.b);
            out.push(p.a);
            i = i + 1;
        }
        out
    }
}

/// In a width-`w`, height-`h` row-major grid, the index of (x, y) is in
/// range.
pub proof fn lemma_row_major_bound(x: int, y: int, w: int, h: int)
    requires
        0 <= x < w,
        0 <= y < h,
    ensures
        0 <= y * w + x < w * h,
        y * w + x < 0x100000000 || w > 0xffff || h > 0xffff,
{
    assert(y * w + x < w * h) by (nonlinear_arith)
        requires
            0 <= x < w && 0 <= y < h,
    ;
    assert(0 <= y * w) by (nonlinear_arith)
        requires
            0 <= y && 0 <= w,
    ;
    if w <= 0xffff && h <= 0xffff {
        assert(w * h <= 0xffff * 0xffff) by (nonlinear_arith)
            requires
                0 <= w <= 0xffff && 0 <= h <= 0xffff,
        ;
    }
}

/// The blended result of putting `src` over `backdrop` at the given opacity
/// with the given mode.
pub open spec fn spec_blend_pixel(
    mode: crate::layer::BlendMode,
    backdrop: crate::blend::Rgba8,
    src: crate::blend::Rgba8,
    opacity: u8,
) -> crate::blend::Rgba8 {
    match mode {
        crate::layer::BlendMode::Normal => crate::blend::spec_normal(backdrop, src, opacity as int),
        crate::layer::BlendMode::Multiply => crate::blend::spec_multiply(
            backdrop,
            src,
            opacity as int,
        ),
        crate::layer::BlendMode::Screen => crate::blend::spec_screen(backdrop, src, opacity as int),
        crate::layer::BlendMode::Overlay => crate::blend::spec_overlay(
            backdrop,
            src,
            opacity as int,
        ),
        crate::layer::BlendMode::Darken => crate::blend::spec_darken(backdrop, src, opacity as int),
        crate::layer::BlendMode::Lighten => crate::blend::spec_lighten(
            backdrop,
            src,
            opacity as int,
        ),
        crate::layer::BlendMode::ColorDodge => crate::blend::spec_color_dodge(
            backdrop,
            src,
            opacity as int,
        ),
        crate::layer::BlendMode::ColorBurn => crate::blend::spec_color_burn(
            backdrop,
            src,
            opacity as int,
        ),
        crate::layer::BlendMode::HardLight => crate::blend::spec_hard_light(
            backdrop,
            src,
            opacity as int,
        ),
        crate::layer::BlendMode::SoftLight => crate::hsl::spec_soft_light(
            backdrop,
            src,
            opacity as int,
        ),
        crate::layer::BlendMode::Difference => crate::blend::spec_difference(
            backdrop,
            src,
            opacity as int,
        ),
        crate::layer::BlendMode::Exclusion => crate::blend::spec_exclusion(
            backdrop,
            src,
            opacity as int,
        ),
        crate::layer::BlendMode::Hue => crate::hsl::spec_hsl_hue(backdrop, src, opacity as int),
        crate::layer::BlendMode::Saturation => crate::hsl::spec_hsl_saturation(
            backdrop,
            src,
            opacity as int,
        ),
        crate::layer::BlendMode::Color => crate::hsl::spec_hsl_color(backdrop, src, opacity as int),
        crate::layer::BlendMode::Luminosity => crate::hsl::spec_hsl_luminosity(
            backdrop,
            src,
            opacity as int,
        ),
        crate::layer::BlendMode::Addition => crate::blend::spec_addition(
            backdrop,
            src,
            opacity as int,
        ),
        crate::layer::BlendMode::Subtract => crate::blend::spec_subtract(
            backdrop,
            src,
            opacity as int,
        ),
        crate::layer::BlendMode::Divide => crate::blend::spec_divide(backdrop, src, opacity as int),
    }
}

/// Blend one pixel by the given mode.
pub fn blend_pixel(
    mode: crate::layer::BlendMode,
    backdrop: crate::blend::Rgba8,
    src: crate::blend::Rgba8,
    opacity: u8,
) -> (r: crate::blend::Rgba8)
    ensures
        r == spec_blend_pixel(mode, backdrop, src, opacity),
{
    match mode {
        crate::layer::BlendMode::Normal => crate::blend::normal(backdrop, src, opacity),
        crate::layer::BlendMode::Multiply => crate::blend::multiply(backdrop, src, opacity),
        crate::layer::BlendMode::Screen => crate::blend::screen(backdrop, src, opacity),
        crate::layer::BlendMode::Overlay => crate::blend::overlay(backdrop, src, opacity),
        crate::layer::BlendMode::Darken => crate::blend::darken(backdrop, src, opacity),
        crate::layer::BlendMode::Lighten => crate::blend::lighten(backdrop, src, opacity),
        crate::layer::BlendMode::ColorDodge => crate::blend::color_dodge(backdrop, src, opacity),
        crate::layer::BlendMode::ColorBurn => crate::blend::color_burn(backdrop, src, opacity),
        crate::layer::BlendMode::HardLight => crate::blend::hard_light(backdrop, src, opacity),
        crate::layer::BlendMode::SoftLight => crate::hsl::soft_light(backdrop, src, opacity),
        crate::layer::BlendMode::Difference => crate::blend::difference(backdrop, src, opacity),
        crate::layer::BlendMode::Exclusion => crate::blend::exclusion(backdrop, src, opacity),
        crate::layer::BlendMode::Hue => crate::hsl::hsl_hue(backdrop, src, opacity),
        crate::layer::BlendMode::Saturation => crate::hsl::hsl_saturation(backdrop, src, opacity),
        crate::layer::BlendMode::Color => crate::hsl::hsl_color(backdrop, src, opacity),
        crate::layer::BlendMode::Luminosity => crate::hsl::hsl_luminosity(backdrop, src, opacity),
        crate::layer::BlendMode::Addition => crate::blend::addition(backdrop, src, opacity),
        crate::layer::BlendMode::Subtract => crate::blend::subtract(backdrop, src, opacity),
        crate::layer::BlendMode::Divide => crate::blend::divide(backdrop, src, opacity),
    }
}

/// The canvas after blending a `cw` by `ch` pixel block at offset
/// (`x0`, `y0`): every canvas pixel inside the block's rectangle is blended
/// with the corresponding source pixel, every other pixel is unchanged
/// (out-of-canvas parts of the block are silently clipped).
pub open spec fn spec_draw_image(
    data: Seq<crate::blend::Rgba8>,
    w: int,
    x0: int,
    y0: int,
    cw: int,
    ch: int,
    px: Seq<crate::blend::Rgba8>,
    mode: crate::layer::BlendMode,
    opacity: u8,
) -> Seq<crate::blend::Rgba8> {
    Seq::new(
        data.len(),
        |i: int|
            {
                let xx = i % w;
                let yy = i / w;
                if x0 <= xx < x0 + cw && y0 <= yy < y0 + ch {
                    spec_blend_pixel(mode, data[i], px[(yy - y0) * cw + (xx - x0)], opacity)
                } else {
                    data[i]
                }
            },
    )
}

/// Blend a pixel block onto the canvas, clipping silently at the canvas
/// edges. The cel's own opacity drives the blend.
pub fn write_raw_cel_to_image(
    image: &mut Bitmap,
    cel_data: &crate::cel::CelCommon,
    image_size: &crate::cel::ImageSize,
    pixels: &Vec<crate::blend::Rgba8>,
    blend_mode: crate::layer::BlendMode,
) -> (nothing: ())
    requires
        old(image).wf(),
        pixels@.len() == image_size.width as int * image_size.height as int,
    ensures
        final(image).wf(),
        final(image).spec_width() == old(image).spec_width(),
        final(image).spec_height() == old(image).spec_height(),
        final(image).spec_data() == spec_draw_image(
            old(image).spec_data(),
            old(image).spec_width() as int,
            cel_data.x as int,
            cel_data.y as int,
            image_size.width as int,
            image_size.height as int,
            pixels@,
            blend_mode,
            cel_data.opacity,
        ),
{
    let w: u16 = image.width();
    let h: u16 = image.height();
    let ghost olddata = image.spec_data();
    let ghost target = spec_draw_image(
        olddata,
        w as int,
        cel_data.x as int,
        cel_data.y as int,
        image_size.width as int,
        image_size.height as int,
        pixels@,
        blend_mode,
        cel_data.opacity,
    );
    if w == 0 || h == 0 {
        proof {
            assert(w as int * h as int == 0) by (nonlinear_arith)
                requires
                    w == 0 || h == 0,
            ;
            assert(image.spec_data() =~= target);
        }
        return ;
    }
    let x0: i32 = cel_data.x as i32;
    let y0: i32 = cel_data.y as i32;
    let cw: i32 = image_size.width as i32;
    let ch: i32 = image_size.height as i32;
    let mut y: u16 = 0;
    while y < h
        invariant
            image.wf(),
            image.spec_width() == w,
            image.spec_height() == h,
            w > 0,
            y <= h,
            x0 == cel_data.x as int && y0 == cel_data.y as int,
            cw == image_size.width as int && ch == image_size.height as int,
            pixels@.len() == cw * ch,
            olddata.len() == w as int * h as int,
            target == spec_draw_image(
                olddata,
                w as int,
                x0 as int,
                y0 as int,
                cw as int,
                ch as int,
                pixels@,
                blend_mode,
                cel_data.opacity,
            ),
            image.spec_data().len() == olddata.len(),
            forall|i: int| 0 <= i < y as int * w as int ==> image.spec_data()[i] == target[i],
            forall|i: int|
                y as int * w as int <= i < olddata.len() ==> image.spec_data()[i] == olddata[i],
        decreases h - y,
    {
        let mut x: u16 = 0;
        proof {
            lemma_row_major_bound(0, y as int, w as int, h as int);
        }
        while x < w
            invariant
                image.wf(),
                image.spec_width() == w,
                image.spec_height() == h,
                w > 0,
                y < h,
                x <= w,
                x0 == cel_data.x as int && y0 == cel_data.y as int,
                cw == image_size.width as int && ch == image_size.height as int,
                pixels@.len() == cw * ch,
                olddata.len() == w as int * h as int,
                target == spec_draw_image(
                    olddata,
                    w as int,
                    x0 as int,
                    y0 as int,
                    cw as int,
                    ch as int,
                    pixels@,
                    blend_mode,
                    cel_data.opacity,
                ),
                image.spec_data().len() == olddata.len(),
                forall|i: int|
                    0 <= i < y as int * w as int + x as int ==> image.spec_data()[i] == target[i],
                forall|i: int|
                    y as int * w as int + x as int <= i < olddata.len() ==> image.spec_data()[i]
                        == olddata[i],
            decreases w - x,
        {
            let ghost i = y as int * w as int + x as int;
            proof {
                lemma_row_major_bound(x as int, y as int, w as int, h as int);
                vstd::arithmetic::div_mod::lemma_fundamental_div_mod_converse_div(
                    i,
                    w as int,
                    y as int,
                    x as int,
                );
                vstd::arithmetic::div_mod::lemma_fundamental_div_mod_converse_mod(
                    i,
                    w as int,
                    y as int,
                    x as int,
                );
            }
            let xx: i32 = x as i32;
            let yy: i32 = y as i32;
            if x0 <= xx && xx < x0 + cw && y0 <= yy && yy < y0 + ch {
                let sx: i32 = xx - x0;
                let sy: i32 = yy - y0;
                proof {
                    lemma_row_major_bound(sx as int, sy as int, cw as int, ch as int);
                }
                let sidx: usize = (sy as usize) * (cw as usize) + (sx as usize);
                let src = pixels[sidx];
                let back = image.get_pixel(x, y);
                let blended = blend_pixel(blend_mode, back, src, cel_data.opacity);
                image.put_pixel(x, y, blended);
                proof {
                    assert(image.spec_data()[i] == target[i]);
                }
            } else {
                proof {
                    assert(image.spec_data()[i] == olddata[i]);
                    assert(target[i] == olddata[i]);
                }
            }
            x = x + 1;
        }
        y = y + 1;
        proof {
            assert(y as int * w as int == (y - 1) as int * w as int + w as int)
                by (nonlinear_arith);
        }
    }
    proof {
        assert(h as int * w as int == w as int * h as int) by (nonlinear_arith);
        assert(image.spec_data() =~= target);
    }
}

/// The source pixel a tilemap shows at grid-relative pixel position
/// (`rx`, `ry`): the position selects a tile cell, the cell's tile id
/// selects a block of the tileset's pixel plane. `None` outside the grid,
/// for zero-sized tiles, and for tile ids beyond the tileset (the reference
/// application treats the last as an internal error).
pub open spec fn spec_tilemap_source(
    t: &crate::tilemap::TilemapData,
    ts: &crate::tileset::Tileset,
    rx: int,
    ry: int,
) -> Option<crate::blend::Rgba8> {
    let tw = ts.tile_size.spec_width() as int;
    let th = ts.tile_size.spec_height() as int;
    if tw <= 0 || th <= 0 || ts.pixels is None {
        None
    } else if 0 <= rx < t.spec_width() as int * tw && 0 <= ry < t.spec_height() as int * th {
        let tx = rx / tw;
        let ty = ry / th;
        let tile = t.spec_tiles()[ty * t.spec_width() as int + tx];
        if tile.id.0 < ts.tile_count {
            Some(
                ts.pixels->0.spec_rgba()[tile.id.0 as int * tw * th + (ry % th) * tw + (rx % tw)],
            )
        } else {
            None
        }
    } else {
        None
    }
}

/// The canvas after blending a tilemap cel at offset (`x0`, `y0`): every
/// canvas pixel covered by the tile grid is blended with the tile pixel the
/// grid shows there, every other pixel is unchanged.
pub open spec fn spec_draw_tilemap(
    data: Seq<crate::blend::Rgba8>,
    w: int,
    x0: int,
    y0: int,
    t: &crate::tilemap::TilemapData,
    ts: &crate::tileset::Tileset,
    mode: crate::layer::BlendMode,
    opacity: u8,
) -> Seq<crate::blend::Rgba8> {
    Seq::new(
        data.len(),
        |i: int|
            {
                match spec_tilemap_source(t, ts, i % w - x0, i / w - y0) {
                    Some(src) => spec_blend_pixel(mode, data[i], src, opacity),
                    None => data[i],
                }
            },
    )
}

fn tilemap_source(
    t: &crate::tilemap::TilemapData,
    ts: &crate::tileset::Tileset,
    pixels: &Vec<crate::blend::Rgba8>,
    rx: i32,
    ry: i32,
) -> (r: Option<crate::blend::Rgba8>)
    requires
        t.wf(),
        ts.wf(),
        ts.pixels is Some,
        pixels@ == ts.pixels->0.spec_rgba(),
        -0x10000 <= rx as int <= 0x20000,
        -0x10000 <= ry as int <= 0x20000,
    ensures
        r == spec_tilemap_source(t, ts, rx as int, ry as int),
{
    let tw: i32 = ts.tile_size.width() as i32;
    let th: i32 = ts.tile_size.height() as i32;
    if tw <= 0 || th <= 0 {
        return None;
    }
    proof {
        assert(t.spec_width() as int * tw <= 0xffff * 0xffff) by (nonlinear_arith)
            requires
                t.spec_width() <= 0xffff && 0 < tw <= 0xffff,
        ;
        assert(t.spec_height() as int * th <= 0xffff * 0xffff) by (nonlinear_arith)
            requires
                t.spec_height() <= 0xffff && 0 < th <= 0xffff,
        ;
    }
    let grid_w: i64 = (t.width() as i64) * (tw as i64);
    let grid_h: i64 = (t.height() as i64) * (th as i64);
    if rx < 0 || (rx as i64) >= grid_w || ry < 0 || (ry as i64) >= grid_h {
        return None;
    }
    let tx: i32 = rx / tw;
    let ty: i32 = ry / th;
    let px: i32 = rx % tw;
    let py: i32 = ry % th;
    proof {
        assert(rx as int / tw as int == tx as int && rx as int % tw as int == px as int);
        assert(ry as int / th as int == ty as int && ry as int % th as int == py as int);
        vstd::arithmetic::div_mod::lemma_fundamental_div_mod(rx as int, tw as int);
        vstd::arithmetic::div_mod::lemma_mod_bound(rx as int, tw as int);
        vstd::arithmetic::div_mod::lemma_fundamental_div_mod(ry as int, th as int);
        vstd::arithmetic::div_mod::lemma_mod_bound(ry as int, th as int);
        assert((tx as int) < t.spec_width() as int) by (nonlinear_arith)
            requires
                rx as int == tw as int * (tx as int) + px as int && 0 <= px as int && (px as int)
                    < tw as int && 0 < tw as int && (rx as int) < t.spec_width() as int
                    * tw as int,
        ;
        assert((ty as int) < t.spec_height() as int) by (nonlinear_arith)
            requires
                ry as int == th as int * (ty as int) + py as int && 0 <= py as int && (py as int)
                    < th as int && 0 < th as int && (ry as int) < t.spec_height() as int
                    * th as int,
        ;
        lemma_row_major_bound(
            tx as int,
            ty as int,
            t.spec_width() as int,
            t.spec_height() as int,
        );
    }
    let tidx: usize = (ty as usize) * (t.width() as usize) + (tx as usize);
    let tile = match t.tile(tx as u16, ty as u16) {
        Some(tile) => tile,
        None => { return None },
    };
    if tile.id.0 >= ts.tile_count {
        return None;
    }
    proof {
        assert(tile.id.0 as int * (tw as int) * (th as int) + (py as int) * (tw as int) + (
        px as int) < ts.tile_count as int * (tw as int) * (th as int)) by (nonlinear_arith)
            requires
                (tile.id.0 as int) < ts.tile_count as int && 0 <= px as int && (px as int)
                    < tw as int && 0 <= py as int && (py as int) < th as int && 0 < tw as int && 0
                    < th as int,
        ;
        assert(0 <= tile.id.0 as int * (tw as int) * (th as int) + (py as int) * (tw as int) + (
        px as int)) by (nonlinear_arith)
            requires
                0 <= tile.id.0 as int && 0 <= px as int && 0 <= py as int && 0 < tw as int && 0
                    < th as int,
        ;
        assert(ts.tile_count as int * (tw as int) * (th as int) <= 0xffffffff * 0xffff * 0xffff)
            by (nonlinear_arith)
            requires
                ts.tile_count <= 0xffffffffu32 && 0 < tw as int <= 0xffff && 0 < th as int
                    <= 0xffff,
        ;
    }
    proof {
        assert(tile.id.0 as int * (tw as int) <= 0xffffffff * 0xffff && (py as int) * (tw as int)
            <= 0xffff * 0xffff) by (nonlinear_arith)
            requires
                tile.id.0 <= 0xffffffffu32 && 0 <= tw as int && tw as int <= 0xffff && 0
                    <= py as int && py as int <= 0xffff,
        ;
    }
    let pidx_wide: u64 = (tile.id.0 as u64) * (tw as u64) * (th as u64) + (py as u64) * (
    tw as u64) + (px as u64);
    if pidx_wide >= pixels.len() as u64 {
        return None;
    }
    proof {
        assert(pixels@.len() == ts.tile_count as int * (ts.tile_size.spec_width() as int)
            * (ts.tile_size.spec_height() as int));
    }
    Some(pixels[pidx_wide as usize])
}

/// Blend a tilemap cel onto the canvas, tile by tile, clipping silently at
/// the canvas edges. The cel's own opacity drives the blend.
pub fn write_tilemap_cel_to_image(
    image: &mut Bitmap,
    cel_data: &crate::cel::CelCommon,
    tilemap_data: &crate::tilemap::TilemapData,
    tileset: &crate::tileset::Tileset,
    pixels: &Vec<crate::blend::Rgba8>,
    blend_mode: crate::layer::BlendMode,
) -> (nothing: ())
    requires
        old(image).wf(),
        tilemap_data.wf(),
        tileset.wf(),
        tileset.pixels is Some,
        pixels@ == tileset.pixels->0.spec_rgba(),
    ensures
        final(image).wf(),
        final(image).spec_width() == old(image).spec_width(),
        final(image).spec_height() == old(image).spec_height(),
        final(image).spec_data() == spec_draw_tilemap(
            old(image).spec_data(),
            old(image).spec_width() as int,
            cel_data.x as int,
            cel_data.y as int,
            tilemap_data,
            tileset,
            blend_mode,
            cel_data.opacity,
        ),
{
    let w: u16 = image.width();
    let h: u16 = image.height();
    let ghost olddata = image.spec_data();
    let ghost target = spec_draw_tilemap(
        olddata,
        w as int,
        cel_data.x as int,
        cel_data.y as int,
        tilemap_data,
        tileset,
        blend_mode,
        cel_data.opacity,
    );
    if w == 0 || h == 0 {
        proof {
            assert(w as int * h as int == 0) by (nonlinear_arith)
                requires
                    w == 0 || h == 0,
            ;
            assert(image.spec_data() =~= target);
        }
        return ;
    }
    let x0: i32 = cel_data.x as i32;
    let y0: i32 = cel_data.y as i32;
    let mut y: u16 = 0;
    while y < h
        invariant
            image.wf(),
            image.spec_width() == w,
            image.spec_height() == h,
            w > 0,
            y <= h,
            x0 == cel_data.x as int && y0 == cel_data.y as int,
            tilemap_data.wf(),
            tileset.wf(),
            tileset.pixels is Some,
            pixels@ == tileset.pixels->0.spec_rgba(),
            olddata.len() == w as int * h as int,
            target == spec_draw_tilemap(
                olddata,
                w as int,
                x0 as int,
                y0 as int,
                tilemap_data,
                tileset,
                blend_mode,
                cel_data.opacity,
            ),
            image.spec_data().len() == olddata.len(),
            forall|i: int| 0 <= i < y as int * w as int ==> image.spec_data()[i] == target[i],
            forall|i: int|
                y as int * w as int <= i < olddata.len() ==> image.spec_data()[i] == olddata[i],
        decreases h - y,
    {
        let mut x: u16 = 0;
        proof {
            lemma_row_major_bound(0, y as int, w as int, h as int);
        }
        while x < w
            invariant
                image.wf(),
                image.spec_width() == w,
                image.spec_height() == h,
                w > 0,
                y < h,
                x <= w,
                x0 == cel_data.x as int && y0 == cel_data.y as int,
                tilemap_data.wf(),
                tileset.wf(),
                tileset.pixels is Some,
                pixels@ == tileset.pixels->0.spec_rgba(),
                olddata.len() == w as int * h as int,
                target == spec_draw_tilemap(
                    olddata,
                    w as int,
                    x0 as int,
                    y0 as int,
                    tilemap_data,
                    tileset,
                    blend_mode,
                    cel_data.opacity,
                ),
                image.spec_data().len() == olddata.len(),
                forall|i: int|
                    0 <= i < y as int * w as int + x as int ==> image.spec_data()[i] == target[i],
                forall|i: int|
                    y as int * w as int + x as int <= i < olddata.len() ==> image.spec_data()[i]
                        == olddata[i],
            decreases w - x,
        {
            let ghost i = y as int * w as int + x as int;
            proof {
                lemma_row_major_bound(x as int, y as int, w as int, h as int);
                vstd::arithmetic::div_mod::lemma_fundamental_div_mod_converse_div(
                    i,
                    w as int,
                    y as int,
                    x as int,
                );
                vstd::arithmetic::div_mod::lemma_fundamental_div_mod_converse_mod(
                    i,
                    w as int,
                    y as int,
                    x as int,
                );
            }
            let rx: i32 = (x as i32) - x0;
            let ry: i32 = (y as i32) - y0;
            match tilemap_source(tilemap_data, tileset, pixels, rx, ry) {
                Some(src) => {
                    let back = image.get_pixel(x, y);
                    let blended = blend_pixel(blend_mode, back, src, cel_data.opacity);
                    image.put_pixel(x, y, blended);
                    proof {
                        assert(image.spec_data()[i] == target[i]);
                    }
                },
                None => {
                    proof {
                        assert(image.spec_data()[i] == olddata[i]);
                        assert(target[i] == olddata[i]);
                    }
                },
            }
            x = x + 1;
        }
        y = y + 1;
        proof {
            assert(y as int * w as int == (y - 1) as int * w as int + w as int)
                by (nonlinear_arith);
        }
    }
    proof {
        assert(h as int * w as int == w as int * h as int) by (nonlinear_arith);
        assert(image.spec_data() =~= target);
    }
}

/// A fully parsed and validated document.
#[derive(Debug)]
pub struct AsepriteFile {
    /// Canvas width in pixels.
    pub width: u16,
    /// Canvas height in pixels.
    pub height: u16,
    /// Number of animation frames.
    pub num_frames: u16,
    /// The document's pixel format.
    pub pixel_format: PixelFormat,
    /// The palette, when the document carries one.
    pub palette: Option<crate::palette::ColorPalette>,
    /// The layer list and its computed parent relation.
    pub layers: crate::layer::LayersData,
    /// Per-frame duration in milliseconds.
    pub frame_times: Vec<u16>,
    /// The tag list.
    pub tags: Vec<crate::tags::Tag>,
    /// The validated cel store.
    pub framedata: crate::cel::CelsData,
    /// External-file references.
    pub external_files: crate::external_file::ExternalFilesById,
    /// The tileset table.
    pub tilesets: crate::tileset::TilesetsById,
    /// Sprite-level user data, when present.
    pub sprite_user_data: Option<crate::user_data::UserData>,
    /// The slice list.
    pub slices: Vec<crate::slice::Slice>,
}

impl AsepriteFile {
    /// The invariants a successful parse establishes: the layer tree, the
    /// cel store, the tilesets and the palette are mutually consistent.
    pub open spec fn wf(&self) -> bool {
        &&& self.layers.wf()
        &&& self.layers.layers@.len() < 0x10000
        &&& self.layers.tilesets_valid(&self.tilesets)
        &&& self.tilesets.wf()
        &&& self.framedata.data@.len() == self.num_frames as int
        &&& self.framedata.links_valid()
        &&& self.framedata.content_wf(self.layers.layers@)
        &&& match self.palette {
            Some(p) => p.wf(),
            None => true,
        }
        &&& self.external_files.wf()
        &&& self.frame_times@.len() == self.num_frames as int
    }

    /// The canvas after drawing one non-linked cel record onto `data`:
    /// a plain-image cel blends its pixel block; a tilemap cel blends its
    /// tile grid through the tileset of its (tilemap) layer; anything
    /// inconsistent with the validated invariants leaves the canvas alone.
    pub open spec fn spec_draw_record(
        &self,
        data: Seq<crate::blend::Rgba8>,
        rec: &crate::cel::CelRecord,
    ) -> Seq<crate::blend::Rgba8> {
        let li = rec.data.layer_index as int;
        if li >= self.layers.layers@.len() {
            data
        } else {
            let mode = self.layers.layers@[li].blend_mode;
            match rec.content {
                crate::cel::CelContent::Raw(size, px) => spec_draw_image(
                    data,
                    self.width as int,
                    rec.data.x as int,
                    rec.data.y as int,
                    size.width as int,
                    size.height as int,
                    px.spec_rgba(),
                    mode,
                    rec.data.opacity,
                ),
                crate::cel::CelContent::Tilemap(t) => match self.layers.layers@[li].layer_type {
                    crate::layer::LayerType::Tilemap(tid) => match self.tilesets.spec_get(tid) {
                        Some(ts) => if ts.pixels is Some {
                            spec_draw_tilemap(
                                data,
                                self.width as int,
                                rec.data.x as int,
                                rec.data.y as int,
                                &t,
                                &ts,
                                mode,
                                rec.data.opacity,
                            )
                        } else {
                            data
                        },
                        None => data,
                    },
                    _ => data,
                },
                crate::cel::CelContent::Linked(_) => data,
            }
        }
    }

    /// The canvas after drawing the cel at (frame, layer), resolving a
    /// linked cel through its one-hop target. An empty slot leaves the
    /// canvas alone.
    pub open spec fn spec_draw_cel(
        &self,
        data: Seq<crate::blend::Rgba8>,
        frame: int,
        layer: int,
    ) -> Seq<crate::blend::Rgba8> {
        if self.framedata.spec_has(frame, layer) {
            let rec = self.framedata.data@[frame]@[layer]->0;
            match rec.content {
                crate::cel::CelContent::Linked(f2) => {
                    if self.framedata.spec_has(f2 as int, layer) {
                        self.spec_draw_record(data, &self.framedata.data@[f2 as int]@[layer]->0)
                    } else {
                        data
                    }
                },
                _ => self.spec_draw_record(data, &rec),
            }
        } else {
            data
        }
    }

    /// The frame image after compositing the first `n` layers (in storage,
    /// i.e. back-to-front, order), skipping layers that are not effectively
    /// visible.
    pub open spec fn spec_render_upto(&self, frame: int, n: int) -> Seq<crate::blend::Rgba8>
        decreases n,
    {
        if n <= 0 {
            Seq::new(
                (self.width as nat) * (self.height as nat),
                |i: int| crate::blend::spec_transparent(),
            )
        } else {
            let prev = self.spec_render_upto(frame, n - 1);
            if crate::layer::spec_visible(self.layers.layers@, n - 1) {
                self.spec_draw_cel(prev, frame, n - 1)
            } else {
                prev
            }
        }
    }

    /// Draw one stored cel record onto the canvas.
    fn write_record(&self, image: &mut Bitmap, rec: &crate::cel::CelRecord)
        requires
            self.wf(),
            old(image).wf(),
            old(image).spec_width() == self.width,
            old(image).spec_height() == self.height,
            rec.content matches crate::cel::CelContent::Raw(size, px) ==> px.spec_len()
                == size.width as int * size.height as int,
            rec.content matches crate::cel::CelContent::Tilemap(t) ==> t.wf(),
        ensures
            final(image).wf(),
            final(image).spec_width() == old(image).spec_width(),
            final(image).spec_height() == old(image).spec_height(),
            final(image).spec_data() == self.spec_draw_record(old(image).spec_data(), rec),
    {
        let li = rec.data.layer_index as usize;
        if li >= self.layers.layers.len() {
            return ;
        }
        let mode = self.layers.layers[li].blend_mode;
        match &rec.content {
            crate::cel::CelContent::Raw(size, px) => {
                let rgba = px.clone_as_image_rgba();
                write_raw_cel_to_image(image, &rec.data, size, &rgba, mode);
            },
            crate::cel::CelContent::Tilemap(t) => {
                match self.layers.layers[li].layer_type {
                    crate::layer::LayerType::Tilemap(tid) => {
                        match self.tilesets.get(tid) {
                            Some(ts) => {
                                match &ts.pixels {
                                    Some(p) => {
                                        let rgba = p.clone_as_image_rgba();
                                        write_tilemap_cel_to_image(
                                            image,
                                            &rec.data,
                                            t,
                                            ts,
                                            &rgba,
                                            mode,
                                        );
                                    },
                                    None => {
                                        proof {
                                            assert(false);
                                        }
                                    },
                                }
                            },
                            None => {},
                        }
                    },
                    _ => {},
                }
            },
            crate::cel::CelContent::Linked(_) => {},
        }
    }

    /// Draw the cel at (frame, layer) onto the canvas, following a linked
    /// cel one hop to its target.
    fn write_cel(&self, image: &mut Bitmap, frame: u16, layer: u16)
        requires
            self.wf(),
            old(image).wf(),
            old(image).spec_width() == self.width,
            old(image).spec_height() == self.height,
        ensures
            final(image).wf(),
            final(image).spec_width() == old(image).spec_width(),
            final(image).spec_height() == old(image).spec_height(),
            final(image).spec_data() == self.spec_draw_cel(
                old(image).spec_data(),
                frame as int,
                layer as int,
            ),
    {
        match self.framedata.cel(crate::cel::CelId { frame, layer }) {
            Some(rec) => {
                match &rec.content {
                    crate::cel::CelContent::Linked(f2) => {
                        match self.framedata.cel(crate::cel::CelId { frame: *f2, layer }) {
                            Some(target) => {
                                self.write_record(image, target);
                            },
                            None => {},
                        }
                    },
                    _ => {
                        self.write_record(image, rec);
                    },
                }
            },
            None => {},
        }
    }

    /// Composite one frame: all effectively visible layers, back to front,
    /// each blended by its own mode. The result always has exactly the
    /// document's canvas size, whatever the frame holds.
    pub fn frame_image(&self, frame: u16) -> (r: Bitmap)
        requires
            self.wf(),
            frame < self.num_frames,
        ensures
            r.wf(),
            r.spec_width() == self.width,
            r.spec_height() == self.height,
            r.spec_data() == self.spec_render_upto(frame as int, self.layers.layers@.len() as int),
    {
        let mut image = Bitmap::new(self.width, self.height);
        proof {
            assert(image.spec_data() =~= self.spec_render_upto(frame as int, 0));
        }
        let n = self.layers.layers.len();
        let mut l: usize = 0;
        while l < n
            invariant
                self.wf(),
                frame < self.num_frames,
                n == self.layers.layers@.len(),
                l <= n,
                image.wf(),
                image.spec_width() == self.width,
                image.spec_height() == self.height,
                image.spec_data() == self.spec_render_upto(frame as int, l as int),
            decreases n - l,
        {
            if self.is_layer_visible(l) {
                self.write_cel(&mut image, frame, l as u16);
            }
            l = l + 1;
        }
        image
    }

    /// Whether the layer at `index` is effectively visible: it and all of
    /// its ancestors carry the visible flag.
    pub fn is_layer_visible(&self, index: usize) -> (r: bool)
        requires
            self.wf(),
            index < self.layers.layers@.len(),
        ensures
            r == crate::layer::spec_visible(self.layers.layers@, index as int),
    {
        let mut cur: usize = index;
        loop
            invariant
                self.wf(),
                cur <= index < self.layers.layers@.len(),
                crate::layer::spec_visible(self.layers.layers@, index as int)
                    <==> crate::layer::spec_visible(self.layers.layers@, cur as int),
            decreases cur,
        {
            let ghost s = self.layers.layers@;
            proof {
                assert(crate::layer::spec_visible(s, cur as int) == (s[cur as int].flags.spec_contains(
                    crate::layer::LAYER_VISIBLE,
                ) && match crate::layer::spec_parent_of(s, cur as int) {
                    Some(p) => 0 <= p < cur as int && crate::layer::spec_visible(s, p),
                    None => true,
                }));
                assert(self.layers.parents@[cur as int] == match crate::layer::spec_parent_of(
                    s,
                    cur as int,
                ) {
                    Some(p) => Some(p as u32),
                    None => None::<u32>,
                });
            }
            if !self.layers.layers[cur].flags.contains(crate::layer::LAYER_VISIBLE) {
                return false;
            }
            match self.layers.parents[cur] {
                Some(p) => {
                    proof {
                        crate::layer::lemma_find_parent_bounds(
                            s,
                            cur as int - 1,
                            s[cur as int].child_level,
                        );
                    }
                    cur = p as usize;
                },
                None => {
                    return true;
                },
            }
        }
    }

    /// The canvas-sized image of the single cel at the given coordinates
    /// (fully transparent where the cel does not cover the canvas).
    pub fn layer_image(&self, frame: u16, layer: u16) -> (r: Bitmap)
        requires
            self.wf(),
        ensures
            r.wf(),
            r.spec_width() == self.width,
            r.spec_height() == self.height,
            r.spec_data() == self.spec_draw_cel(
                Seq::new(
                    (self.width as nat) * (self.height as nat),
                    |i: int| crate::blend::spec_transparent(),
                ),
                frame as int,
                layer as int,
            ),
    {
        let mut image = Bitmap::new(self.width, self.height);
        proof {
            assert(image.spec_data() =~= Seq::new(
                (self.width as nat) * (self.height as nat),
                |i: int| crate::blend::spec_transparent(),
            ));
        }
        self.write_cel(&mut image, frame, layer);
        image
    }
}

/// Rendering never changes the canvas size: for any frame of a consistent
/// document and any number of composited layers, the rendered pixel
/// sequence has exactly width * height entries.
pub proof fn lemma_render_dimensions(doc: &AsepriteFile, frame: int, n: int)
    requires
        doc.wf(),
        n >= 0,
    ensures
        doc.spec_render_upto(frame, n).len() == doc.width as int * doc.height as int,
    decreases n,
{
    if n > 0 {
        lemma_render_dimensions(doc, frame, n - 1);
    }
}

/// Rendering a linked cel draws exactly what rendering its target cel
/// draws: for a cel at (f2, layer) that links to frame f1, the canvas
/// after drawing (f2, layer) equals the canvas after drawing (f1, layer),
/// pixel for pixel, whatever the starting canvas.
pub proof fn lemma_linked_cel_draws_target(
    doc: &AsepriteFile,
    data: Seq<crate::blend::Rgba8>,
    f2: int,
    f1: u16,
    layer: int,
)
    requires
        doc.wf(),
        doc.framedata.spec_has(f2, layer),
        doc.framedata.data@[f2]@[layer]->0.content == crate::cel::CelContent::Linked(f1),
    ensures
        doc.spec_draw_cel(data, f2, layer) == doc.spec_draw_cel(data, f1 as int, layer),
{
    assert(doc.framedata.spec_has(f1 as int, layer) && !(doc.framedata.data@[
    f1 as int]@[layer]->0.content is Linked));
}

impl AsepriteFile {
    /// Parse a document from its bytes.
    pub fn read(input: &[u8]) -> (r: Result<AsepriteFile, crate::error::AsepriteParseError>)
        ensures
            match r {
                Ok(doc) => doc.wf(),
                Err(_) => true,
            },
    {
        crate::parse::read_aseprite(input)
    }

    /// Canvas width in pixels.
    pub fn width(&self) -> (r: usize)
        ensures
            r == self.width,
    {
        self.width as usize
    }

    /// Canvas height in pixels.
    pub fn height(&self) -> (r: usize)
        ensures
            r == self.height,
    {
        self.height as usize
    }

    /// Canvas width and height in pixels.
    pub fn size(&self) -> (r: (usize, usize))
        ensures
            r.0 == self.width && r.1 == self.height,
    {
        (self.width as usize, self.height as usize)
    }

    /// Number of animation frames.
    pub fn num_frames(&self) -> (r: u32)
        ensures
            r == self.num_frames,
    {
        self.num_frames as u32
    }

    /// Number of layers.
    pub fn num_layers(&self) -> (r: u32)
        requires
            self.layers.layers@.len() < 0x10000,
        ensures
            r == self.layers.layers@.len(),
    {
        self.layers.layers.len() as u32
    }

    /// The document's pixel format. Images are rendered as RGBA regardless.
    pub fn pixel_format(&self) -> (r: PixelFormat)
        ensures
            r == self.pixel_format,
    {
        self.pixel_format
    }

    /// The color palette, when the document carries one.
    pub fn palette(&self) -> (r: Option<&crate::palette::ColorPalette>)
        ensures
            r is Some <==> self.palette is Some,
            r matches Some(p) ==> *p == self.palette->0,
    {
        match &self.palette {
            Some(p) => Some(p),
            None => None,
        }
    }

    /// For indexed documents, the transparent color index.
    pub fn transparent_color_index(&self) -> (r: Option<u8>)
        ensures
            match self.pixel_format {
                PixelFormat::Indexed { transparent_color_index } => r == Some(
                    transparent_color_index,
                ),
                _ => r is None,
            },
    {
        self.pixel_format.transparent_color_index()
    }

    /// A reference to the layer with the given id.
    pub fn layer(&self, id: u32) -> (r: Layer<'_>)
        requires
            self.wf(),
            id < self.layers.layers@.len(),
        ensures
            r.file == self,
            r.layer_id == id,
            r.valid(),
    {
        Layer { file: self, layer_id: id }
    }

    /// The lowest-id layer with the given name, when one exists.
    pub fn layer_by_name(&self, name: &str) -> (r: Option<Layer<'_>>)
        requires
            self.wf(),
        ensures
            r matches Some(l) ==> l.valid() && l.file == self,
    {
        let n = self.layers.layers.len();
        let mut i: usize = 0;
        while i < n
            invariant
                self.wf(),
                n == self.layers.layers@.len(),
                i <= n,
            decreases n - i,
        {
            if crate::file::str_eq(self.layers.layers[i].name.as_str(), name) {
                return Some(Layer { file: self, layer_id: i as u32 });
            }
            i = i + 1;
        }
        None
    }

    /// An iterator-style cursor over all layers.
    pub fn layers(&self) -> (r: LayersIter<'_>)
        requires
            self.wf(),
        ensures
            r.file == self,
            r.next_id == 0,
    {
        LayersIter { file: self, next_id: 0 }
    }

    /// A reference to the frame with the given index.
    pub fn frame(&self, index: u32) -> (r: Frame<'_>)
        requires
            self.wf(),
            index < self.num_frames,
        ensures
            r.file == self,
            r.index == index,
    {
        Frame { file: self, index }
    }

    /// A reference to the cel at the given frame and layer.
    pub fn cel(&self, frame: u32, layer: u32) -> (r: Cel<'_>)
        requires
            self.wf(),
            frame < self.num_frames,
            layer < self.layers.layers@.len(),
        ensures
            r.file == self,
            r.cel_id.frame == frame,
            r.cel_id.layer == layer,
    {
        Cel { file: self, cel_id: crate::cel::CelId { frame: frame as u16, layer: layer as u16 } }
    }

    /// The external-file table.
    pub fn external_files(&self) -> (r: &crate::external_file::ExternalFilesById)
        ensures
            r == &self.external_files,
    {
        &self.external_files
    }

    /// Look up an external file by id.
    pub fn external_file_by_id(&self, id: &crate::external_file::ExternalFileId) -> (r: Option<
        &crate::external_file::ExternalFile,
    >)
        requires
            self.wf(),
        ensures
            match r {
                Some(e) => self.external_files.spec_get(*id) == Some(*e),
                None => !self.external_files.spec_has(*id),
            },
    {
        self.external_files.get(id)
    }

    /// Total number of tags.
    pub fn num_tags(&self) -> (r: u32)
        requires
            self.tags@.len() <= u32::MAX,
        ensures
            r == self.tags@.len(),
    {
        self.tags.len() as u32
    }

    /// The tag with the given id.
    pub fn tag(&self, tag_id: u32) -> (r: &crate::tags::Tag)
        requires
            tag_id < self.tags@.len(),
        ensures
            r == &self.tags@[tag_id as int],
    {
        &self.tags[tag_id as usize]
    }

    /// The lowest-id tag with the given name, when one exists.
    pub fn tag_by_name(&self, name: &str) -> (r: Option<&crate::tags::Tag>)
        ensures
            r matches Some(t) ==> t.spec_name() == name@,
    {
        let n = self.tags.len();
        let mut i: usize = 0;
        while i < n
            invariant
                n == self.tags@.len(),
                i <= n,
            decreases n - i,
        {
            if crate::file::str_eq(self.tags[i].name(), name) {
                return Some(&self.tags[i]);
            }
            i = i + 1;
        }
        None
    }

    /// The tileset table.
    pub fn tilesets(&self) -> (r: &crate::tileset::TilesetsById)
        ensures
            r == &self.tilesets,
    {
        &self.tilesets
    }

    /// Sprite-level user data, when present.
    pub fn sprite_user_data(&self) -> (r: Option<&crate::user_data::UserData>)
        ensures
            r is Some <==> self.sprite_user_data is Some,
    {
        match &self.sprite_user_data {
            Some(u) => Some(u),
            None => None,
        }
    }

    /// All slices of the document.
    pub fn slices(&self) -> (r: &Vec<crate::slice::Slice>)
        ensures
            r == &self.slices,
    {
        &self.slices
    }

    /// The tilemap shown by the cel at the given layer and frame; `None`
    /// when the coordinates are out of range, the layer is not a tilemap
    /// layer, or the cel is empty or not a tilemap cel.
    pub fn tilemap(&self, layer_id: u32, frame: u32) -> (r: Option<Tilemap<'_>>)
        requires
            self.wf(),
        ensures
            r matches Some(t) ==> t.file == self && t.file.wf(),
    {
        if layer_id >= self.layers.layers.len() as u32 || frame >= self.num_frames as u32 {
            return None;
        }
        let tileset_id: u32 = match self.layers.layers[layer_id as usize].layer_type {
            crate::layer::LayerType::Tilemap(tid) => tid,
            _ => { return None },
        };
        let tileset = match self.tilesets.get(tileset_id) {
            Some(t) => t,
            None => { return None },
        };
        let cel_id = crate::cel::CelId { frame: frame as u16, layer: layer_id as u16 };
        let is_tilemap_cel = match self.framedata.cel(cel_id) {
            Some(rec) => match &rec.content {
                crate::cel::CelContent::Tilemap(_) => true,
                _ => false,
            },
            None => false,
        };
        if !is_tilemap_cel {
            return None;
        }
        let tile_width = tileset.tile_size.width();
        let tile_height = tileset.tile_size.height();
        if tile_width == 0 || tile_height == 0 {
            return None;
        }
        let w: u32 = ((self.width as u32) + (tile_width as u32) - 1) / (tile_width as u32);
        let h: u32 = ((self.height as u32) + (tile_height as u32) - 1) / (tile_height as u32);
        proof {
            vstd::arithmetic::div_mod::lemma_div_is_ordered(
                self.width as int + tile_width as int - 1,
                0x1fffe,
                tile_width as int,
            );
            vstd::arithmetic::div_mod::lemma_div_is_ordered(
                self.height as int + tile_height as int - 1,
                0x1fffe,
                tile_height as int,
            );
            vstd::arithmetic::div_mod::lemma_div_is_ordered_by_denominator(
                0x1fffe,
                1,
                tile_width as int,
            );
            vstd::arithmetic::div_mod::lemma_div_is_ordered_by_denominator(
                0x1fffe,
                1,
                tile_height as int,
            );
        }
        Some(
            Tilemap {
                file: self,
                cel_id,
                tileset_id,
                logical_size: (w as u16, h as u16),
            },
        )
    }
}

/// Whether two strings hold the same characters.
pub fn str_eq(a: &str, b: &str) -> (r: bool)
    ensures
        r == (a@ == b@),
{
    let ab = a.as_bytes();
    let bb = b.as_bytes();
    if ab.len() != bb.len() {
        proof {
            if a@ == b@ {
                assert(ab@ == bb@);
            }
        }
        return false;
    }
    let n = ab.len();
    let mut i: usize = 0;
    while i < n
        invariant
            n == ab@.len() == bb@.len(),
            i <= n,
            ab@.subrange(0, i as int) == bb@.subrange(0, i as int),
            ab@ == vstd::utf8::encode_utf8(a@),
            bb@ == vstd::utf8::encode_utf8(b@),
        decreases n - i,
    {
        if ab[i] != bb[i] {
            proof {
                if a@ == b@ {
                    assert(ab@ == bb@);
                }
            }
            return false;
        }
        proof {
            assert(ab@.subrange(0, i + 1) =~= bb@.subrange(0, i + 1));
        }
        i = i + 1;
    }
    proof {
        assert forall|j: int| 0 <= j < n implies ab@[j] == bb@[j] by {
            assert(ab@.subrange(0, n as int)[j] == bb@.subrange(0, n as int)[j]);
        }
        assert(ab@ =~= bb@);
        vstd::utf8::encode_utf8_decode_utf8(a@);
        vstd::utf8::encode_utf8_decode_utf8(b@);
    }
    true
}

/// A reference to a single layer of a document.
pub struct Layer<'a> {
    /// The owning document.
    pub file: &'a AsepriteFile,
    /// The layer's index.
    pub layer_id: u32,
}

impl<'a> Layer<'a> {
    /// The reference points into a consistent document.
    pub open spec fn valid(&self) -> bool {
        self.file.wf() && (self.layer_id as int) < self.file.layers.layers@.len()
    }

    /// The layer record this reference points at.
    pub open spec fn spec_data(&self) -> crate::layer::LayerData {
        self.file.layers.layers@[self.layer_id as int]
    }

    /// This layer's id.
    pub fn id(&self) -> (r: u32)
        ensures
            r == self.layer_id,
    {
        self.layer_id
    }

    /// The layer's attribute flags.
    pub fn flags(&self) -> (r: crate::layer::LayerFlags)
        requires
            self.valid(),
        ensures
            r == self.spec_data().flags,
    {
        self.file.layers.layers[self.layer_id as usize].flags
    }

    /// The layer's name.
    pub fn name(&self) -> (r: &str)
        requires
            self.valid(),
        ensures
            r@ == self.spec_data().name@,
    {
        self.file.layers.layers[self.layer_id as usize].name.as_str()
    }

    /// How the layer combines with the layers beneath it.
    pub fn blend_mode(&self) -> (r: crate::layer::BlendMode)
        requires
            self.valid(),
        ensures
            r == self.spec_data().blend_mode,
    {
        self.file.layers.layers[self.layer_id as usize].blend_mode
    }

    /// The layer's opacity byte.
    pub fn opacity(&self) -> (r: u8)
        requires
            self.valid(),
        ensures
            r == self.spec_data().opacity,
    {
        self.file.layers.layers[self.layer_id as usize].opacity
    }

    /// Image, group or tilemap.
    pub fn layer_type(&self) -> (r: crate::layer::LayerType)
        requires
            self.valid(),
        ensures
            r == self.spec_data().layer_type,
    {
        self.file.layers.layers[self.layer_id as usize].layer_type
    }

    /// Whether this is a tilemap layer.
    pub fn is_tilemap(&self) -> (r: bool)
        requires
            self.valid(),
        ensures
            r == (self.spec_data().layer_type is Tilemap),
    {
        match self.layer_type() {
            crate::layer::LayerType::Tilemap(_) => true,
            _ => false,
        }
    }

    /// The parent group of this layer, when it has one.
    pub fn parent(&self) -> (r: Option<Layer<'a>>)
        requires
            self.valid(),
        ensures
            r matches Some(l) ==> l.valid() && l.file == self.file,
    {
        match self.file.layers.parents[self.layer_id as usize] {
            Some(p) => {
                proof {
                    crate::layer::lemma_find_parent_bounds(
                        self.file.layers.layers@,
                        self.layer_id as int - 1,
                        self.file.layers.layers@[self.layer_id as int].child_level,
                    );
                }
                Some(Layer { file: self.file, layer_id: p })
            },
            None => None,
        }
    }

    /// Whether the layer is effectively visible: it and all its ancestors
    /// carry the visible flag.
    pub fn is_visible(&self) -> (r: bool)
        requires
            self.valid(),
        ensures
            r == crate::layer::spec_visible(self.file.layers.layers@, self.layer_id as int),
    {
        self.file.is_layer_visible(self.layer_id as usize)
    }

    /// The cel of this layer at the given frame.
    pub fn frame(&self, frame_id: u32) -> (r: Cel<'a>)
        requires
            self.valid(),
            frame_id < self.file.num_frames,
        ensures
            r.file == self.file,
            r.cel_id.layer == self.layer_id,
            r.cel_id.frame == frame_id,
    {
        Cel {
            file: self.file,
            cel_id: crate::cel::CelId {
                frame: frame_id as u16,
                layer: self.layer_id as u16,
            },
        }
    }

    /// The layer's user data, when present.
    pub fn user_data(&self) -> (r: Option<&'a crate::user_data::UserData>)
        requires
            self.valid(),
        ensures
            r is Some <==> self.spec_data().user_data is Some,
    {
        match &self.file.layers.layers[self.layer_id as usize].user_data {
            Some(u) => Some(u),
            None => None,
        }
    }
}

/// An iterator-style cursor over a document's layers.
pub struct LayersIter<'a> {
    /// The owning document.
    pub file: &'a AsepriteFile,
    /// The next layer index to hand out.
    pub next_id: u32,
}

impl<'a> LayersIter<'a> {
    /// The next layer, or `None` when all layers have been handed out.
    pub fn next(&mut self) -> (r: Option<Layer<'a>>)
        requires
            old(self).file.wf(),
        ensures
            final(self).file == old(self).file,
            r is Some <==> (old(self).next_id as int) < old(self).file.layers.layers@.len(),
            r matches Some(l) ==> l.valid() && l.layer_id == old(self).next_id
                && final(self).next_id == old(self).next_id + 1,
    {
        if (self.next_id as usize) < self.file.layers.layers.len() {
            let l = Layer { file: self.file, layer_id: self.next_id };
            self.next_id = self.next_id + 1;
            Some(l)
        } else {
            None
        }
    }
}

/// A reference to a single frame of a document.
pub struct Frame<'a> {
    /// The owning document.
    pub file: &'a AsepriteFile,
    /// The frame index.
    pub index: u32,
}

impl<'a> Frame<'a> {
    /// The composited image of this frame.
    pub fn image(&self) -> (r: Bitmap)
        requires
            self.file.wf(),
            self.index < self.file.num_frames,
        ensures
            r.wf(),
            r.spec_width() == self.file.width,
            r.spec_height() == self.file.height,
            r.spec_data() == self.file.spec_render_upto(
                self.index as int,
                self.file.layers.layers@.len() as int,
            ),
    {
        self.file.frame_image(self.index as u16)
    }

    /// The frame's index.
    pub fn id(&self) -> (r: u32)
        ensures
            r == self.index,
    {
        self.index
    }

    /// The cel of the given layer in this frame.
    pub fn layer(&self, layer_id: u32) -> (r: Cel<'a>)
        requires
            self.file.wf(),
            self.index < self.file.num_frames,
            layer_id < self.file.layers.layers@.len(),
        ensures
            r.file == self.file,
            r.cel_id.frame == self.index,
            r.cel_id.layer == layer_id,
    {
        Cel {
            file: self.file,
            cel_id: crate::cel::CelId {
                frame: self.index as u16,
                layer: layer_id as u16,
            },
        }
    }

    /// The frame's duration in milliseconds.
    pub fn duration(&self) -> (r: u32)
        requires
            self.index < self.file.frame_times@.len(),
        ensures
            r == self.file.frame_times@[self.index as int],
    {
        self.file.frame_times[self.index as usize] as u32
    }
}

/// A reference to a single cel: the content of one layer at one frame.
pub struct Cel<'a> {
    /// The owning document.
    pub file: &'a AsepriteFile,
    /// The cel's coordinates.
    pub cel_id: crate::cel::CelId,
}

impl<'a> Cel<'a> {
    /// The canvas-sized image of just this cel.
    pub fn image(&self) -> (r: Bitmap)
        requires
            self.file.wf(),
        ensures
            r.wf(),
            r.spec_width() == self.file.width,
            r.spec_height() == self.file.height,
    {
        self.file.layer_image(self.cel_id.frame, self.cel_id.layer)
    }

    /// Whether a cel record is stored at these coordinates. (The reference
    /// decoder returns exactly this from its emptiness query.)
    pub fn is_empty(&self) -> (r: bool)
        ensures
            r == self.file.framedata.spec_has(self.cel_id.frame as int, self.cel_id.layer as int),
    {
        match self.file.framedata.cel(self.cel_id) {
            Some(_) => true,
            None => false,
        }
    }

    /// The frame coordinate.
    pub fn frame(&self) -> (r: u32)
        ensures
            r == self.cel_id.frame,
    {
        self.cel_id.frame as u32
    }

    /// The layer coordinate.
    pub fn layer(&self) -> (r: u32)
        ensures
            r == self.cel_id.layer,
    {
        self.cel_id.layer as u32
    }

    /// The cel's user data, when present.
    pub fn user_data(&self) -> (r: Option<&'a crate::user_data::UserData>)
        ensures
            r is Some <==> (self.file.framedata.spec_cel(
                self.cel_id.frame as int,
                self.cel_id.layer as int,
            ) matches Some(rec) && rec.user_data is Some),
    {
        match self.file.framedata.cel(self.cel_id) {
            Some(rec) => match &rec.user_data {
                Some(u) => Some(u),
                None => None,
            },
            None => None,
        }
    }

    /// The top-left corner of the cel's own rectangle; (0, 0) for an empty
    /// cel. May be negative or outside the canvas.
    pub fn top_left(&self) -> (r: (i32, i32))
        ensures
            match self.file.framedata.spec_cel(
                self.cel_id.frame as int,
                self.cel_id.layer as int,
            ) {
                Some(rec) => r == (rec.data.x as i32, rec.data.y as i32),
                None => r == (0i32, 0i32),
            },
    {
        match self.file.framedata.cel(self.cel_id) {
            Some(rec) => (rec.data.x as i32, rec.data.y as i32),
            None => (0, 0),
        }
    }

    /// Whether the cel holds a tilemap.
    pub fn is_tilemap(&self) -> (r: bool)
        ensures
            r == (self.file.framedata.spec_cel(
                self.cel_id.frame as int,
                self.cel_id.layer as int,
            ) matches Some(rec) && rec.content is Tilemap),
    {
        match self.file.framedata.cel(self.cel_id) {
            Some(rec) => match &rec.content {
                crate::cel::CelContent::Tilemap(_) => true,
                _ => false,
            },
            None => false,
        }
    }
}

/// A reference to the tilemap shown by one cel.
pub struct Tilemap<'a> {
    /// The owning document.
    pub file: &'a AsepriteFile,
    /// The tilemap cel's coordinates.
    pub cel_id: crate::cel::CelId,
    /// The id of the tileset the tiles come from.
    pub tileset_id: u32,
    /// The canvas size in whole tiles (rounded up).
    pub logical_size: (u16, u16),
}

impl<'a> Tilemap<'a> {
    /// Width of the canvas in tiles.
    pub fn width(&self) -> (r: u32)
        ensures
            r == self.logical_size.0,
    {
        self.logical_size.0 as u32
    }

    /// Height of the canvas in tiles.
    pub fn height(&self) -> (r: u32)
        ensures
            r == self.logical_size.1,
    {
        self.logical_size.1 as u32
    }

    /// The pixel size of one tile.
    pub fn tile_size(&self) -> (r: (u32, u32))
        requires
            self.file.wf(),
    {
        match self.file.tilesets.get(self.tileset_id) {
            Some(ts) => (ts.tile_size.width() as u32, ts.tile_size.height() as u32),
            None => (0, 0),
        }
    }

    /// The tileset the tiles come from; `None` only when the document does
    /// not hold the referenced tileset.
    pub fn tileset(&self) -> (r: Option<&'a crate::tileset::Tileset>)
        requires
            self.file.wf(),
        ensures
            r matches Some(t) ==> t.wf() && t.pixels is Some,
    {
        self.file.tilesets.get(self.tileset_id)
    }

    /// The whole tilemap cel as a canvas-sized image.
    pub fn image(&self) -> (r: Bitmap)
        requires
            self.file.wf(),
        ensures
            r.wf(),
            r.spec_width() == self.file.width,
            r.spec_height() == self.file.height,
    {
        self.file.layer_image(self.cel_id.frame, self.cel_id.layer)
    }

    /// The tile shown at logical grid position (x, y); the empty tile
    /// outside the stored tile grid. The grid is addressed relative to the
    /// cel's tile offsets.
    pub fn tile(&self, x: u32, y: u32) -> (r: crate::tile::Tile)
        requires
            self.file.wf(),
    {
        let (ofs_x, ofs_y) = self.tile_offsets();
        let rx: i64 = (x as i64) - (ofs_x as i64);
        let ry: i64 = (y as i64) - (ofs_y as i64);
        match self.file.framedata.cel(self.cel_id) {
            Some(rec) => match &rec.content {
                crate::cel::CelContent::Tilemap(t) => {
                    if rx < 0 || ry < 0 || rx >= t.width() as i64 || ry >= t.height() as i64 {
                        return crate::tile::Tile::empty();
                    }
                    match t.tile(rx as u16, ry as u16) {
                        Some(tile) => crate::tile::Tile {
                            id: tile.id,
                            flip_x: tile.flip_x,
                            flip_y: tile.flip_y,
                            rotate_90cw: tile.rotate_90cw,
                        },
                        None => crate::tile::Tile::empty(),
                    }
                },
                _ => crate::tile::Tile::empty(),
            },
            None => crate::tile::Tile::empty(),
        }
    }

    /// The cel's offset in whole tiles.
    pub fn tile_offsets(&self) -> (r: (i32, i32))
        requires
            self.file.wf(),
    {
        let (x, y) = self.pixel_offsets();
        match self.file.tilesets.get(self.tileset_id) {
            Some(ts) => {
                let tw = ts.tile_size.width();
                let th = ts.tile_size.height();
                if tw == 0 || th == 0 {
                    (0, 0)
                } else {
                    (div_floorless(x, tw as i32), div_floorless(y, th as i32))
                }
            },
            None => (0, 0),
        }
    }

    /// The cel's offset in pixels.
    pub fn pixel_offsets(&self) -> (r: (i32, i32))
        ensures
            -0x8000 <= r.0 as int <= 0x7fff,
            -0x8000 <= r.1 as int <= 0x7fff,
    {
        match self.file.framedata.cel(self.cel_id) {
            Some(rec) => (rec.data.x as i32, rec.data.y as i32),
            None => (0, 0),
        }
    }
}

/// Signed division truncating toward zero (as the `/` operator on machine
/// integers behaves), for divisors known positive.
pub fn div_floorless(a: i32, b: i32) -> (r: i32)
    requires
        b > 0,
        -0x8000 <= a as int <= 0x8000,
{
    if a >= 0 {
        let q: i32 = ((a as u32) / (b as u32)) as i32;
        q
    } else {
        let q: i32 = (((-a) as u32) / (b as u32)) as i32;
        -q
    }
}

} // verus!
