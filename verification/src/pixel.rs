//! Pixel planes: truecolor, grayscale and indexed pixel data, and the
//! palette resolution step that turns indexed planes into colors.

use crate::blend::Rgba8;
use crate::error::AsepriteParseError;
use crate::palette::ColorPalette;
use crate::reader::AseReader;
use vstd::prelude::*;

verus! {

/// A grayscale pixel: a luma value and an alpha value.
#[derive(Debug, Clone, Copy, PartialEq, Eq, Structural)]
pub struct Grayscale {
    /// The luma byte.
    pub value: u8,
    /// The alpha byte.
    pub alpha: u8,
}

impl Grayscale {
    /// The luma channel.
    pub open spec fn spec_value(&self) -> u8 {
        self.value
    }

    /// The alpha channel.
    pub open spec fn spec_alpha(&self) -> u8 {
        self.alpha
    }

    /// Decode one grayscale pixel from its two bytes (luma, then alpha).
    pub fn new(chunk: &[u8]) -> (r: Result<Grayscale, AsepriteParseError>)
        ensures
            match r {
                Ok(g) => chunk@.len() >= 2 && g.value == chunk@[0] && g.alpha == chunk@[1],
                Err(e) => chunk@.len() < 2 && e is IoError,
            },
    {
        let mut reader = AseReader::new(chunk);
        let value = match reader.byte() {
            Ok(v) => v,
            Err(e) => { return Err(e) },
        };
        let alpha = match reader.byte() {
            Ok(v) => v,
            Err(e) => { return Err(e) },
        };
        Ok(Grayscale { value, alpha })
    }

    /// Expand to truecolor by replicating the luma into R, G and B.
    pub fn into_rgba(self) -> (r: Rgba8)
        ensures
            r == spec_gray_rgba(self),
    {
        Rgba8 { r: self.value, g: self.value, b: self.value, a: self.alpha }
    }
}

/// The truecolor expansion of a grayscale pixel.
pub open spec fn spec_gray_rgba(g: Grayscale) -> Rgba8 {
    Rgba8 { r: g.spec_value(), g: g.spec_value(), b: g.spec_value(), a: g.spec_alpha() }
}

/// The truecolor pixel stored at 4-byte group `i` of `bytes`.
pub open spec fn spec_rgba_at(bytes: Seq<u8>, i: int) -> Rgba8 {
    Rgba8 { r: bytes[4 * i], g: bytes[4 * i + 1], b: bytes[4 * i + 2], a: bytes[4 * i + 3] }
}

/// The grayscale pixel stored at 2-byte group `i` of `bytes`.
pub open spec fn spec_gray_at(bytes: Seq<u8>, i: int) -> Grayscale {
    Grayscale { value: bytes[2 * i], alpha: bytes[2 * i + 1] }
}

/// Pixel data as read from the file, before palette resolution.
#[derive(Debug)]
pub enum RawPixels {
    /// Four bytes per pixel: red, green, blue, alpha.
    Rgba(Vec<Rgba8>),
    /// Two bytes per pixel: luma, alpha.
    Grayscale(Vec<Grayscale>),
    /// One palette index byte per pixel.
    Indexed(Vec<u8>),
}

/// Pixel data after validation: indexed pixels are resolved against the
/// palette, so every plane can hand out truecolor pixels.
#[derive(Debug)]
pub enum Pixels {
    /// Truecolor pixels as stored.
    Rgba(Vec<Rgba8>),
    /// Grayscale pixels as stored; expanded to truecolor on demand.
    Grayscale(Vec<Grayscale>),
    /// Palette-resolved colors of an indexed plane, in pixel order.
    Indexed(Vec<Rgba8>),
}

impl Pixels {
    /// The number of pixels in the plane.
    pub open spec fn spec_len(&self) -> int {
        match self {
            Pixels::Rgba(v) => v@.len() as int,
            Pixels::Grayscale(v) => v@.len() as int,
            Pixels::Indexed(v) => v@.len() as int,
        }
    }

    /// The truecolor view of the plane.
    pub open spec fn spec_rgba(&self) -> Seq<Rgba8> {
        match self {
            Pixels::Rgba(v) => v@,
            Pixels::Grayscale(v) => Seq::new(v@.len(), |i: int| spec_gray_rgba(v@[i])),
            Pixels::Indexed(v) => v@,
        }
    }

    /// The number of pixels in the plane.
    pub fn len(&self) -> (r: usize)
        ensures
            r == self.spec_len(),
    {
        match self {
            Pixels::Rgba(v) => v.len(),
            Pixels::Grayscale(v) => v.len(),
            Pixels::Indexed(v) => v.len(),
        }
    }

    /// The plane expanded to truecolor pixels, in pixel order.
    pub fn clone_as_image_rgba(&self) -> (r: Vec<Rgba8>)
        ensures
            r@ == self.spec_rgba(),
    {
        match self {
            Pixels::Rgba(v) => {
                let mut out: Vec<Rgba8> = Vec::new();
                let mut i: usize = 0;
                while i < v.len()
                    invariant
                        i <= v@.len(),
                        out@ == v@.subrange(0, i as int),
                    decreases v@.len() - i,
                {
                    out.push(v[i]);
                    i = i + 1;
                }
                proof {
                    assert(out@ =~= self.spec_rgba());
                }
                out
            },
            Pixels::Grayscale(v) => {
                let mut out: Vec<Rgba8> = Vec::new();
                let mut i: usize = 0;
                while i < v.len()
                    invariant
                        i <= v@.len(),
                        out@.len() == i,
                        forall|j: int| 0 <= j < i ==> out@[j] == spec_gray_rgba(v@[j]),
                    decreases v@.len() - i,
                {
                    out.push(v[i].into_rgba());
                    i = i + 1;
                }
                proof {
                    assert(out@ =~= self.spec_rgba());
                }
                out
            },
            Pixels::Indexed(v) => {
                let mut out: Vec<Rgba8> = Vec::new();
                let mut i: usize = 0;
                while i < v.len()
                    invariant
                        i <= v@.len(),
                        out@ == v@.subrange(0, i as int),
                    decreases v@.len() - i,
                {
                    out.push(v[i]);
                    i = i + 1;
                }
                proof {
                    assert(out@ =~= self.spec_rgba());
                }
                out
            },
        }
    }
}

/// How `RawPixels` decodes from a byte run for a given plane kind.
pub open spec fn spec_raw_from_bytes_rgba(bytes: Seq<u8>) -> Seq<Rgba8> {
    Seq::new(bytes.len() / 4, |i: int| spec_rgba_at(bytes, i))
}

/// The grayscale decoding of a byte run.
pub open spec fn spec_raw_from_bytes_gray(bytes: Seq<u8>) -> Seq<Grayscale> {
    Seq::new(bytes.len() / 2, |i: int| spec_gray_at(bytes, i))
}

impl RawPixels {
    /// The number of pixels in the plane.
    pub open spec fn spec_len(&self) -> int {
        match self {
            RawPixels::Rgba(v) => v@.len() as int,
            RawPixels::Grayscale(v) => v@.len() as int,
            RawPixels::Indexed(v) => v@.len() as int,
        }
    }

    /// The number of pixels in the plane.
    pub fn len(&self) -> (r: usize)
        ensures
            r == self.spec_len(),
    {
        match self {
            RawPixels::Rgba(v) => v.len(),
            RawPixels::Grayscale(v) => v.len(),
            RawPixels::Indexed(v) => v.len(),
        }
    }

    /// True when this plane decodes `bytes` for the given format.
    pub open spec fn spec_is_decode_of(&self, bytes: Seq<u8>, format: crate::file::PixelFormat) -> bool {
        match self {
            RawPixels::Rgba(v) => format is Rgba && bytes.len() % 4 == 0 && v@
                == spec_raw_from_bytes_rgba(bytes),
            RawPixels::Grayscale(v) => format is Grayscale && bytes.len() % 2 == 0 && v@
                == spec_raw_from_bytes_gray(bytes),
            RawPixels::Indexed(v) => format is Indexed && v@ == bytes,
        }
    }

    /// Interpret a byte run as pixels of the given format. Succeeds exactly
    /// when the byte count is a whole number of pixels; fails with
    /// `InvalidInput` otherwise.
    pub fn from_bytes(bytes: Vec<u8>, pixel_format: crate::file::PixelFormat) -> (r: Result<
        RawPixels,
        AsepriteParseError,
    >)
        ensures
            r is Ok <==> match pixel_format {
                crate::file::PixelFormat::Rgba => bytes@.len() % 4 == 0,
                crate::file::PixelFormat::Grayscale => bytes@.len() % 2 == 0,
                crate::file::PixelFormat::Indexed { .. } => true,
            },
            match r {
                Ok(p) => p.spec_is_decode_of(bytes@, pixel_format),
                Err(e) => e is InvalidInput,
            },
    {
        match pixel_format {
            crate::file::PixelFormat::Indexed { .. } => Ok(RawPixels::Indexed(bytes)),
            crate::file::PixelFormat::Grayscale => {
                if bytes.len() % 2 != 0 {
                    return Err(
                        AsepriteParseError::InvalidInput(
                            "incorrect length of bytes for grayscale image data".to_owned(),
                        ),
                    );
                }
                let n = bytes.len() / 2;
                proof {
                    vstd::arithmetic::div_mod::lemma_fundamental_div_mod(bytes@.len() as int, 2);
                }
                assert(2 * n <= bytes@.len());
                let mut out: Vec<Grayscale> = Vec::new();
                let mut i: usize = 0;
                while i < n
                    invariant
                        i <= n,
                        n == bytes@.len() / 2,
                        2 * n <= bytes@.len(),
                        bytes@.len() <= usize::MAX,
                        out@.len() == i,
                        forall|j: int| 0 <= j < i ==> out@[j] == spec_gray_at(bytes@, j),
                    decreases n - i,
                {
                    out.push(Grayscale { value: bytes[2 * i], alpha: bytes[2 * i + 1] });
                    i = i + 1;
                }
                proof {
                    assert(out@ =~= spec_raw_from_bytes_gray(bytes@));
                }
                Ok(RawPixels::Grayscale(out))
            },
            crate::file::PixelFormat::Rgba => {
                if bytes.len() % 4 != 0 {
                    return Err(
                        AsepriteParseError::InvalidInput(
                            "incorrect length of bytes for RGBA image data".to_owned(),
                        ),
                    );
                }
                let n = bytes.len() / 4;
                proof {
                    vstd::arithmetic::div_mod::lemma_fundamental_div_mod(bytes@.len() as int, 4);
                }
                assert(4 * n <= bytes@.len());
                let mut out: Vec<Rgba8> = Vec::new();
                let mut i: usize = 0;
                while i < n
                    invariant
                        i <= n,
                        n == bytes@.len() / 4,
                        4 * n <= bytes@.len(),
                        bytes@.len() <= usize::MAX,
                        out@.len() == i,
                        forall|j: int| 0 <= j < i ==> out@[j] == spec_rgba_at(bytes@, j),
                    decreases n - i,
                {
                    out.push(
                        Rgba8 {
                            r: bytes[4 * i],
                            g: bytes[4 * i + 1],
                            b: bytes[4 * i + 2],
                            a: bytes[4 * i + 3],
                        },
                    );
                    i = i + 1;
                }
                proof {
                    assert(out@ =~= spec_raw_from_bytes_rgba(bytes@));
                }
                Ok(RawPixels::Rgba(out))
            },
        }
    }

    /// Read an uncompressed pixel run of exactly `pixel_count` pixels.
    /// Succeeds exactly when that many pixels' bytes remain, and yields
    /// their decoding.
    pub fn from_raw(
        reader: &mut AseReader<'_>,
        pixel_format: crate::file::PixelFormat,
        pixel_count: usize,
    ) -> (r: Result<RawPixels, AsepriteParseError>)
        requires
            old(reader).wf(),
            pixel_count * 4 <= usize::MAX,
        ensures
            final(reader).wf(),
            ({
                let b = old(reader).bytes();
                let p = old(reader).position();
                let size = crate::file::spec_bytes_per_pixel(pixel_format) * pixel_count;
                &&& (r is Ok <==> old(reader).spec_remaining() >= size)
                &&& match r {
                    Ok(px) => px.spec_len() == pixel_count && px.spec_is_decode_of(
                        b.subrange(p, p + size),
                        pixel_format,
                    ) && final(reader).position() == p + size,
                    Err(e) => e is IoError,
                }
            }),
    {
        let bpp: usize = crate::file::bytes_per_pixel_of(pixel_format);
        let size: usize = bpp * pixel_count;
        let bytes = match reader.take_bytes(size) {
            Ok(v) => v,
            Err(e) => { return Err(e) },
        };
        proof {
            crate::pixel::lemma_exact_mul_div(pixel_count as int, bpp as int);
        }
        match RawPixels::from_bytes(bytes, pixel_format) {
            Ok(p) => Ok(p),
            Err(e) => Err(e),
        }
    }

    /// Read a zlib-compressed pixel run that must inflate to exactly
    /// `pixel_count` pixels. Succeeds exactly when the remaining bytes
    /// inflate to that size, and yields the decoding of the inflated bytes.
    pub fn from_compressed(
        reader: &mut AseReader<'_>,
        pixel_format: crate::file::PixelFormat,
        pixel_count: usize,
    ) -> (r: Result<RawPixels, AsepriteParseError>)
        requires
            old(reader).wf(),
            pixel_count * 4 <= usize::MAX,
        ensures
            final(reader).wf(),
            ({
                let rest = old(reader).bytes().subrange(
                    old(reader).position(),
                    old(reader).bytes().len() as int,
                );
                let size = crate::file::spec_bytes_per_pixel(pixel_format) * pixel_count;
                &&& (r is Ok <==> (crate::reader::zlib_inflate(rest) matches Some(out)
                    && out.len() == size))
                &&& match r {
                    Ok(px) => px.spec_len() == pixel_count && px.spec_is_decode_of(
                        crate::reader::zlib_inflate(rest)->0,
                        pixel_format,
                    ),
                    Err(e) => e is InvalidInput,
                }
            }),
    {
        let bpp: usize = crate::file::bytes_per_pixel_of(pixel_format);
        let size: usize = bpp * pixel_count;
        let bytes = match reader.unzip(size) {
            Ok(v) => v,
            Err(e) => { return Err(e) },
        };
        proof {
            crate::pixel::lemma_exact_mul_div(pixel_count as int, bpp as int);
        }
        match RawPixels::from_bytes(bytes, pixel_format) {
            Ok(p) => Ok(p),
            Err(e) => Err(e),
        }
    }

    /// Resolve this plane against the palette: indexed pixels are looked up
    /// (failing with `InvalidInput` when the palette is absent or an index
    /// is missing from it), and the transparent index maps to alpha 0
    /// unless the owning layer is a background layer. Truecolor and
    /// grayscale planes always pass through unchanged.
    pub fn validate(
        self,
        palette: Option<&ColorPalette>,
        transparent_color_index: Option<u8>,
        layer_is_background: bool,
    ) -> (r: Result<Pixels, AsepriteParseError>)
        requires
            match palette {
                Some(p) => p.wf(),
                None => true,
            },
        ensures
            r is Ok <==> match self {
                RawPixels::Rgba(_) => true,
                RawPixels::Grayscale(_) => true,
                RawPixels::Indexed(v) => palette is Some && forall|i: int|
                    #![auto]
                    0 <= i < v@.len() ==> spec_resolve_index(
                        *palette->Some_0,
                        transparent_color_index,
                        layer_is_background,
                        v@[i],
                    ) is Some,
            },
            match r {
                Ok(p) => {
                    &&& p.spec_len() == self.spec_len()
                    &&& match self {
                        RawPixels::Rgba(v) => p == Pixels::Rgba(v),
                        RawPixels::Grayscale(v) => p == Pixels::Grayscale(v),
                        RawPixels::Indexed(v) => {
                            &&& palette is Some
                            &&& p is Indexed
                            &&& forall|i: int|
                                0 <= i < v@.len() ==> Some(p.spec_rgba()[i]) == spec_resolve_index(
                                    *palette->Some_0,
                                    transparent_color_index,
                                    layer_is_background,
                                    v@[i],
                                )
                        },
                    }
                },
                Err(e) => e is InvalidInput,
            },
    {
        match self {
            RawPixels::Rgba(v) => Ok(Pixels::Rgba(v)),
            RawPixels::Grayscale(v) => Ok(Pixels::Grayscale(v)),
            RawPixels::Indexed(v) => {
                match palette {
                    Some(pal) => {
                        let mut out: Vec<Rgba8> = Vec::new();
                        let mut i: usize = 0;
                        while i < v.len()
                            invariant
                                pal.wf(),
                                palette == Some(pal),
                                self is Indexed && self->Indexed_0@ == v@,
                                i <= v@.len(),
                                out@.len() == i,
                                forall|j: int|
                                    0 <= j < i ==> Some(out@[j]) == spec_resolve_index(
                                        *pal,
                                        transparent_color_index,
                                        layer_is_background,
                                        v@[j],
                                    ),
                            decreases v@.len() - i,
                        {
                            match resolve_index(
                                pal,
                                transparent_color_index,
                                layer_is_background,
                                v[i],
                            ) {
                                Some(c) => {
                                    out.push(c);
                                },
                                None => {
                                    proof {
                                        assert(spec_resolve_index(
                                            *pal,
                                            transparent_color_index,
                                            layer_is_background,
                                            v@[i as int],
                                        ) is None);
                                    }
                                    return Err(
                                        AsepriteParseError::InvalidInput(
                                            "palette index out of range".to_owned(),
                                        ),
                                    );
                                },
                            }
                            i = i + 1;
                        }
                        Ok(Pixels::Indexed(out))
                    },
                    None => Err(
                        AsepriteParseError::InvalidInput(
                            "indexed pixels without a palette".to_owned(),
                        ),
                    ),
                }
            },
        }
    }
}

/// `n * b / b == n` for positive `b`.
pub proof fn lemma_exact_mul_div(n: int, b: int)
    requires
        b > 0,
        n >= 0,
    ensures
        (b * n) / b == n,
        (n * b) / b == n,
        (n * b) % b == 0,
        (b * n) % b == 0,
    decreases 0int,
{
    vstd::arithmetic::div_mod::lemma_div_multiples_vanish(n, b);
    vstd::arithmetic::div_mod::lemma_fundamental_div_mod(b * n, b);
    assert(b * n == n * b) by (nonlinear_arith);
}

/// What an indexed pixel resolves to: `None` when the palette lacks the
/// index; otherwise the palette color, with alpha forced to 0 when the index
/// is the transparent index and the layer is not a background layer.
pub open spec fn spec_resolve_index(
    pal: ColorPalette,
    transparent_color_index: Option<u8>,
    layer_is_background: bool,
    index: u8,
) -> Option<Rgba8> {
    match pal.spec_color(index as u32) {
        Some(entry) => {
            let a: u8 = if transparent_color_index == Some(index) && !layer_is_background {
                0
            } else {
                entry.spec_rgba().a
            };
            Some(Rgba8 { r: entry.spec_rgba().r, g: entry.spec_rgba().g, b: entry.spec_rgba().b, a })
        },
        None => None,
    }
}

fn resolve_index(
    pal: &ColorPalette,
    transparent_color_index: Option<u8>,
    layer_is_background: bool,
    index: u8,
) -> (r: Option<Rgba8>)
    requires
        pal.wf(),
    ensures
        r == spec_resolve_index(*pal, transparent_color_index, layer_is_background, index),
{
    match pal.color(index as u32) {
        Some(entry) => {
            let transparent = match transparent_color_index {
                Some(t) => t == index,
                None => false,
            };
            let c = entry.rgba();
            let a: u8 = if transparent && !layer_is_background {
                0
            } else {
                c.a
            };
            Some(Rgba8 { r: c.r, g: c.g, b: c.b, a })
        },
        None => None,
    }
}

} // verus!
