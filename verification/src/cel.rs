//! Cels: the positioned pixel content of one layer at one frame, and the
//! sparse frame-by-layer cel store.

use crate::error::AsepriteParseError;
use crate::layer::{LayerType, LayersData};
use crate::palette::ColorPalette;
use crate::pixel::{Pixels, RawPixels};
use crate::reader::AseReader;
use crate::tilemap::TilemapData;
use crate::user_data::UserData;
use vstd::prelude::*;

verus! {

/// Identifies a cel by its frame and layer coordinates.
#[derive(Debug, Clone, Copy, PartialEq, Eq, Structural)]
pub struct CelId {
    /// The frame index.
    pub frame: u16,
    /// The layer index.
    pub layer: u16,
}

/// The pixel size of a cel's own image.
#[derive(Debug, Clone, Copy, PartialEq, Eq, Structural)]
pub struct ImageSize {
    /// Width in pixels.
    pub width: u16,
    /// Height in pixels.
    pub height: u16,
}

impl ImageSize {
    /// Decode the two size words. Succeeds exactly when four bytes remain.
    pub fn parse(reader: &mut AseReader<'_>) -> (r: Result<ImageSize, AsepriteParseError>)
        requires
            old(reader).wf(),
        ensures
            final(reader).wf(),
            final(reader).bytes() == old(reader).bytes(),
            r is Ok <==> old(reader).spec_remaining() >= 4,
            match r {
                Ok(s) => s.width == crate::reader::le16(old(reader).bytes(), old(reader).position())
                    && s.height == crate::reader::le16(
                    old(reader).bytes(),
                    old(reader).position() + 2,
                ) && final(reader).position() == old(reader).position() + 4,
                Err(e) => e is IoError,
            },
    {
        let width = match reader.word() {
            Ok(v) => v,
            Err(e) => { return Err(e) },
        };
        let height = match reader.word() {
            Ok(v) => v,
            Err(e) => { return Err(e) },
        };
        Ok(ImageSize { width, height })
    }

    /// The number of pixels: width times height.
    pub fn pixel_count(&self) -> (r: usize)
        ensures
            r == self.width as int * self.height as int,
    {
        proof {
            assert(self.width as int * self.height as int <= 0xffff * 0xffff) by (nonlinear_arith)
                requires
                    self.width <= 0xffff && self.height <= 0xffff,
            ;
        }
        (self.width as usize) * (self.height as usize)
    }
}

/// The fields common to all cel kinds: owning layer, position and opacity.
#[derive(Debug, Clone, Copy, PartialEq, Eq, Structural)]
pub struct CelCommon {
    /// Index of the layer this cel belongs to.
    pub layer_index: u16,
    /// Signed x offset of the cel on the canvas.
    pub x: i16,
    /// Signed y offset of the cel on the canvas.
    pub y: i16,
    /// The cel's own opacity.
    pub opacity: u8,
}

impl CelCommon {
    /// Decode the common cel header fields. Succeeds exactly when seven
    /// bytes remain.
    pub fn parse(reader: &mut AseReader<'_>) -> (r: Result<CelCommon, AsepriteParseError>)
        requires
            old(reader).wf(),
        ensures
            final(reader).wf(),
            final(reader).bytes() == old(reader).bytes(),
            r is Ok <==> old(reader).spec_remaining() >= 7,
            match r {
                Ok(c) => {
                    let s = old(reader).bytes();
                    let p = old(reader).position();
                    &&& c.layer_index == crate::reader::le16(s, p)
                    &&& c.x == crate::reader::le16_signed(s, p + 2)
                    &&& c.y == crate::reader::le16_signed(s, p + 4)
                    &&& c.opacity == s[p + 6]
                    &&& final(reader).position() == p + 7
                },
                Err(e) => e is IoError,
            },
    {
        let layer_index = match reader.word() {
            Ok(v) => v,
            Err(e) => { return Err(e) },
        };
        let x = match reader.short() {
            Ok(v) => v,
            Err(e) => { return Err(e) },
        };
        let y = match reader.short() {
            Ok(v) => v,
            Err(e) => { return Err(e) },
        };
        let opacity = match reader.byte() {
            Ok(v) => v,
            Err(e) => { return Err(e) },
        };
        Ok(CelCommon { layer_index, x, y, opacity })
    }
}

/// The payload of a cel before validation.
#[derive(Debug)]
pub enum RawCelContent {
    /// An image of the given size with its raw pixels.
    Raw(ImageSize, RawPixels),
    /// An alias of the cel at the given frame in the same layer.
    Linked(u16),
    /// A tile grid resolved through the layer's tileset.
    Tilemap(TilemapData),
}

/// The payload of a validated cel.
#[derive(Debug)]
pub enum CelContent {
    /// An image of the given size with validated pixels.
    Raw(ImageSize, Pixels),
    /// An alias of the cel at the given frame in the same layer.
    Linked(u16),
    /// A tile grid resolved through the layer's tileset.
    Tilemap(TilemapData),
}

impl RawCelContent {
    /// Whether this payload is a plain image (the only kind a linked cel may
    /// point at).
    pub fn is_raw(&self) -> (r: bool)
        ensures
            r == (self is Raw),
    {
        match self {
            RawCelContent::Raw(_, _) => true,
            _ => false,
        }
    }
}

impl CelContent {
    /// Whether this payload is a plain image.
    pub fn is_raw(&self) -> (r: bool)
        ensures
            r == (self is Raw),
    {
        match self {
            CelContent::Raw(_, _) => true,
            _ => false,
        }
    }
}

/// A parsed cel record, before validation.
#[derive(Debug)]
pub struct RawCel {
    /// Common fields: layer, offset, opacity.
    pub data: CelCommon,
    /// The cel's payload.
    pub content: RawCelContent,
    /// Metadata attached by a later user-data chunk.
    pub user_data: Option<UserData>,
}

/// A validated cel record.
#[derive(Debug)]
pub struct CelRecord {
    /// Common fields: layer, offset, opacity.
    pub data: CelCommon,
    /// The cel's payload.
    pub content: CelContent,
    /// Metadata attached by a later user-data chunk.
    pub user_data: Option<UserData>,
}

/// True when a cel chunk payload is well-formed: the nine common header
/// bytes plus seven reserved, then a payload matching the cel type — raw
/// pixels for type 0, a target frame for type 1, a zlib-compressed pixel
/// block for type 2, a tile grid for type 3; no other type exists.
pub open spec fn spec_cel_chunk_ok(s: Seq<u8>, format: crate::file::PixelFormat) -> bool {
    &&& s.len() >= 16
    &&& {
        let t = crate::reader::le16(s, 7);
        let w = crate::reader::le16(s, 16) as int;
        let h = crate::reader::le16(s, 18) as int;
        if t == 0 {
            &&& s.len() >= 20
            &&& w * h <= usize::MAX / 4
            &&& s.len() - 20 >= crate::file::spec_bytes_per_pixel(format) * (w * h)
        } else if t == 1 {
            s.len() >= 18
        } else if t == 2 {
            &&& s.len() >= 20
            &&& w * h <= usize::MAX / 4
            &&& (crate::reader::zlib_inflate(s.subrange(20, s.len() as int)) matches Some(out)
                && out.len() == crate::file::spec_bytes_per_pixel(format) * (w * h))
        } else if t == 3 {
            &&& s.len() >= 48
            &&& crate::reader::le16(s, 20) == 32
            &&& w * h * 4 <= usize::MAX
            &&& (crate::reader::zlib_inflate(s.subrange(48, s.len() as int)) matches Some(out)
                && out.len() == 4 * (w * h))
        } else {
            false
        }
    }
}

/// Decode one cel chunk: the common header, the cel type, 7 reserved bytes
/// and the type-specific payload. Succeeds exactly on a well-formed payload;
/// the position, opacity, size and every decoded pixel or tile are tied to
/// the payload bytes.
pub fn parse_chunk(data: &[u8], pixel_format: crate::file::PixelFormat) -> (r: Result<
    RawCel,
    AsepriteParseError,
>)
    ensures
        r is Ok <==> spec_cel_chunk_ok(data@, pixel_format),
        match r {
            Ok(c) => {
                let t = crate::reader::le16(data@, 7);
                &&& c.data.layer_index == crate::reader::le16(data@, 0)
                &&& c.data.x == crate::reader::le16_signed(data@, 2)
                &&& c.data.y == crate::reader::le16_signed(data@, 4)
                &&& c.data.opacity == data@[6]
                &&& c.user_data is None
                &&& (t == 0 || t == 2 ==> c.content is Raw)
                &&& (t == 1 ==> c.content is Linked)
                &&& (t == 3 ==> c.content is Tilemap)
                &&& match c.content {
                    RawCelContent::Raw(size, px) => {
                        &&& size.width == crate::reader::le16(data@, 16)
                        &&& size.height == crate::reader::le16(data@, 18)
                        &&& px.spec_len() == size.width as int * size.height as int
                        &&& (t == 0 ==> px.spec_is_decode_of(
                            data@.subrange(
                                20,
                                20 + crate::file::spec_bytes_per_pixel(pixel_format) * (
                                size.width as int * size.height as int),
                            ),
                            pixel_format,
                        ))
                        &&& (t == 2 ==> px.spec_is_decode_of(
                            crate::reader::zlib_inflate(
                                data@.subrange(20, data@.len() as int),
                            )->0,
                            pixel_format,
                        ))
                    },
                    RawCelContent::Linked(f) => f == crate::reader::le16(data@, 16),
                    RawCelContent::Tilemap(tm) => {
                        let hd = crate::tilemap::TileBitmaskHeader {
                            tile_id: crate::reader::le32(data@, 22),
                            x_flip: crate::reader::le32(data@, 26),
                            y_flip: crate::reader::le32(data@, 30),
                            rotate_90cw: crate::reader::le32(data@, 34),
                        };
                        let w = crate::reader::le16(data@, 16) as int;
                        let h = crate::reader::le16(data@, 18) as int;
                        let out = crate::reader::zlib_inflate(
                            data@.subrange(48, data@.len() as int),
                        )->0;
                        &&& tm.wf()
                        &&& tm.spec_width() as int == w
                        &&& tm.spec_height() as int == h
                        &&& forall|j: int|
                            0 <= j < w * h ==> #[trigger] tm.spec_tiles()[j]
                                == crate::tile::spec_tile_of(crate::reader::le32(out, 4 * j), hd)
                    },
                }
            },
            Err(e) => e is InvalidInput || e is IoError || e is UnsupportedFeature,
        },
{
    let mut reader = AseReader::new(data);
    let common = match CelCommon::parse(&mut reader) {
        Ok(v) => v,
        Err(e) => { return Err(e) },
    };
    let cel_type = match reader.word() {
        Ok(v) => v,
        Err(e) => { return Err(e) },
    };
    match reader.skip_reserved(7) {
        Ok(_) => (),
        Err(e) => { return Err(e) },
    }
    if cel_type == 0 {
        let size = match ImageSize::parse(&mut reader) {
            Ok(v) => v,
            Err(e) => { return Err(e) },
        };
        let count = size.pixel_count();
        if count > usize::MAX / 4 {
            return Err(AsepriteParseError::InvalidInput("cel too large".to_owned()));
        }
        let px = match RawPixels::from_raw(&mut reader, pixel_format, count) {
            Ok(v) => v,
            Err(e) => { return Err(e) },
        };
        proof {
            assert(data@.len() - 20 >= crate::file::spec_bytes_per_pixel(pixel_format) * (
            size.width as int * size.height as int));
        }
        Ok(RawCel { data: common, content: RawCelContent::Raw(size, px), user_data: None })
    } else if cel_type == 1 {
        let frame = match reader.word() {
            Ok(v) => v,
            Err(e) => { return Err(e) },
        };
        Ok(RawCel { data: common, content: RawCelContent::Linked(frame), user_data: None })
    } else if cel_type == 2 {
        let size = match ImageSize::parse(&mut reader) {
            Ok(v) => v,
            Err(e) => { return Err(e) },
        };
        let count = size.pixel_count();
        if count > usize::MAX / 4 {
            return Err(AsepriteParseError::InvalidInput("cel too large".to_owned()));
        }
        let px = match RawPixels::from_compressed(&mut reader, pixel_format, count) {
            Ok(v) => v,
            Err(e) => { return Err(e) },
        };
        Ok(RawCel { data: common, content: RawCelContent::Raw(size, px), user_data: None })
    } else if cel_type == 3 {
        let t = match TilemapData::parse_chunk(&mut reader) {
            Ok(v) => v,
            Err(e) => { return Err(e) },
        };
        Ok(RawCel { data: common, content: RawCelContent::Tilemap(t), user_data: None })
    } else {
        Err(AsepriteParseError::InvalidInput("invalid or unsupported cel type".to_owned()))
    }
}

/// The sparse cel store of a document while it is being parsed: one slot per
/// (frame, layer) pair, rows grown lazily per frame.
#[derive(Debug)]
pub struct RawCelsData {
    /// Per frame, per layer, the stored cel.
    pub data: Vec<Vec<Option<RawCel>>>,
}

/// The validated cel store: every link points one hop to an existing
/// non-linked cel, tilemap cels sit on tilemap layers, and indexed pixels
/// are palette-resolved.
#[derive(Debug)]
pub struct CelsData {
    /// Per frame, per layer, the stored cel.
    pub data: Vec<Vec<Option<CelRecord>>>,
}

/// The cel stored at (frame, layer), if any (out-of-range reads are empty).
pub open spec fn spec_raw_cel_at(d: Seq<Seq<Option<RawCel>>>, frame: int, layer: int) -> bool {
    0 <= frame < d.len() && 0 <= layer < d[frame].len() && d[frame][layer] is Some
}

impl RawCelsData {
    /// A store with one empty row per frame.
    pub fn new(num_frames: u32) -> (r: RawCelsData)
        ensures
            r.data@.len() == num_frames,
            forall|f: int| 0 <= f < num_frames ==> #[trigger] r.data@[f]@.len() == 0,
    {
        let mut data: Vec<Vec<Option<RawCel>>> = Vec::new();
        let mut i: u32 = 0;
        while i < num_frames
            invariant
                i <= num_frames,
                data@.len() == i,
                forall|f: int| 0 <= f < i ==> #[trigger] data@[f]@.len() == 0,
            decreases num_frames - i,
        {
            data.push(Vec::new());
            i = i + 1;
        }
        RawCelsData { data }
    }

    /// Whether a cel is stored at (frame, layer).
    pub open spec fn spec_has(&self, frame: int, layer: int) -> bool {
        0 <= frame < self.data@.len() && 0 <= layer < self.data@[frame]@.len()
            && self.data@[frame]@[layer] is Some
    }

    /// Add a cel for the given frame at its own layer index. Fails with
    /// `InvalidInput` — leaving the store unchanged — when the frame is out
    /// of range or the slot already holds a cel: a duplicate cel is a hard
    /// error, never an overwrite.
    pub fn add_cel(&mut self, frame_id: u16, cel: RawCel) -> (r: Result<(), AsepriteParseError>)
        ensures
            match r {
                Ok(_) => {
                    &&& frame_id < old(self).data@.len()
                    &&& !old(self).spec_has(frame_id as int, cel.data.layer_index as int)
                    &&& final(self).spec_has(frame_id as int, cel.data.layer_index as int)
                    &&& final(self).data@.len() == old(self).data@.len()
                    &&& forall|f: int, l: int|
                        #![auto]
                        0 <= f < old(self).data@.len() && 0 <= l && !(f == frame_id as int && l
                            == cel.data.layer_index as int) ==> (final(self).spec_has(f, l) <==> old(
                            self,
                        ).spec_has(f, l))
                },
                Err(e) => {
                    &&& e is InvalidInput
                    &&& (frame_id as int >= old(self).data@.len() || old(self).spec_has(
                        frame_id as int,
                        cel.data.layer_index as int,
                    ))
                    &&& final(self).data@.len() == old(self).data@.len()
                    &&& forall|f2: int|
                        0 <= f2 < old(self).data@.len() ==> #[trigger] final(self).data@[f2]@
                            == old(self).data@[f2]@
                },
            },
    {
        if frame_id as usize >= self.data.len() {
            return Err(
                AsepriteParseError::InvalidInput("invalid frame reference in cel".to_owned()),
            );
        }
        let layer_id = cel.data.layer_index as usize;
        let ghost olddata = self.data@;
        let f = frame_id as usize;
        let mut row = self.data.remove(f);
        let ghost oldrow = row@;
        let old_len: usize = row.len();
        while row.len() < layer_id + 1
            invariant
                layer_id < 0x10000,
                oldrow.len() <= row@.len(),
                row@.len() <= layer_id + 1 || row@.len() == oldrow.len(),
                forall|l: int| 0 <= l < oldrow.len() ==> row@[l] == oldrow[l],
                forall|l: int| oldrow.len() <= l < row@.len() ==> row@[l] is None,
            decreases layer_id + 1 - row@.len(),
        {
            row.push(None);
        }
        if row[layer_id].is_some() {
            proof {
                assert(row@[layer_id as int] is Some);
                if layer_id as int >= oldrow.len() {
                    assert(row@[layer_id as int] is None);
                }
                assert(oldrow.len() > layer_id && oldrow[layer_id as int] is Some);
            }
            row.truncate(old_len);
            proof {
                assert(row@ =~= oldrow);
            }
            self.data.insert(f, row);
            proof {
                assert(self.data@.len() == olddata.len());
                assert forall|f2: int| 0 <= f2 < olddata.len() implies #[trigger] self.data@[f2]@
                    == olddata[f2]@ by {
                    if f2 != f as int {
                        assert(self.data@[f2] == olddata[f2]);
                    }
                }
            }
            return Err(
                AsepriteParseError::InvalidInput(
                    "multiple cels for one frame and layer".to_owned(),
                ),
            );
        }
        row.set(layer_id, Some(cel));
        self.data.insert(f, row);
        proof {
            assert(self.data@.len() == olddata.len());
            assert forall|f2: int, l: int|
                #![auto]
                0 <= f2 < olddata.len() && 0 <= l && !(f2 == frame_id as int && l
                    == layer_id as int) implies (self.spec_has(f2, l) <==> (0 <= f2
                < olddata.len() && 0 <= l < olddata[f2]@.len() && olddata[f2]@[l] is Some)) by {
                if f2 != frame_id as int {
                    assert(self.data@[f2] == olddata[f2]);
                } else {
                    if l < oldrow.len() {
                        assert(self.data@[f2]@[l] == oldrow[l]);
                    }
                }
            }
        }
        Ok(())
    }

    /// Attach user data to the cel at the given coordinates. Fails when no
    /// cel is stored there; nothing else of the store changes.
    pub fn set_cel_user_data(&mut self, cel_id: &CelId, user_data: UserData) -> (r: Result<
        (),
        AsepriteParseError,
    >)
        ensures
            match r {
                Ok(_) => {
                    let f = cel_id.frame as int;
                    let l = cel_id.layer as int;
                    &&& old(self).spec_has(f, l)
                    &&& final(self).data@.len() == old(self).data@.len()
                    &&& forall|f2: int|
                        0 <= f2 < old(self).data@.len() && f2 != f ==> final(self).data@[f2] == old(
                            self,
                        ).data@[f2]
                    &&& final(self).data@[f]@.len() == old(self).data@[f]@.len()
                    &&& forall|l2: int|
                        0 <= l2 && l2 < old(self).data@[f]@.len() && l2 != l
                            ==> final(self).data@[f]@[l2] == old(self).data@[f]@[l2]
                    &&& final(self).data@[f]@[l] is Some
                    &&& final(self).data@[f]@[l]->0.data == old(self).data@[f]@[l]->0.data
                },
                Err(e) => {
                    &&& e is InternalError
                    &&& !old(self).spec_has(cel_id.frame as int, cel_id.layer as int)
                    &&& final(self).data@.len() == old(self).data@.len()
                    &&& forall|f2: int|
                        0 <= f2 < old(self).data@.len() ==> #[trigger] final(self).data@[f2]@
                            == old(self).data@[f2]@
                },
            },
    {
        let f = cel_id.frame as usize;
        let l = cel_id.layer as usize;
        if f >= self.data.len() {
            return Err(AsepriteParseError::InternalError("invalid cel id in chunk context".to_owned()));
        }
        let ghost olddata = self.data@;
        let mut row = self.data.remove(f);
        let ghost oldrow = row@;
        if l >= row.len() {
            self.data.insert(f, row);
            proof {
                assert(self.data@.len() == olddata.len());
                assert forall|f2: int| 0 <= f2 < olddata.len() implies #[trigger] self.data@[f2]@
                    == olddata[f2]@ by {
                    if f2 != f as int {
                        assert(self.data@[f2] == olddata[f2]);
                    }
                }
            }
            return Err(AsepriteParseError::InternalError("invalid cel id in chunk context".to_owned()));
        }
        let slot = row.remove(l);
        let ghost oldslot = slot;
        match slot {
            Some(c) => {
                let RawCel { data, content, user_data: _ } = c;
                row.insert(l, Some(RawCel { data, content, user_data: Some(user_data) }));
                self.data.insert(f, row);
                proof {
                    assert(self.data@.len() == olddata.len());
                    assert forall|f2: int|
                        0 <= f2 < olddata.len() && f2 != f as int implies self.data@[f2]
                        == olddata[f2] by {}
                    assert(self.data@[f as int]@ =~= oldrow.update(
                        l as int,
                        self.data@[f as int]@[l as int],
                    ));
                }
                Ok(())
            },
            None => {
                proof {
                    assert(oldrow[l as int] is None);
                }
                row.insert(l, None);
                self.data.insert(f, row);
                proof {
                    assert(row@ =~= oldrow);
                    assert(self.data@.len() == olddata.len());
                    assert forall|f2: int|
                        0 <= f2 < olddata.len() implies #[trigger] self.data@[f2]@
                        == olddata[f2]@ by {
                        if f2 != f as int {
                            assert(self.data@[f2] == olddata[f2]);
                        }
                    }
                }
                Err(AsepriteParseError::InternalError("invalid cel id in chunk context".to_owned()))
            },
        }
    }

    /// A reference to the cel at the given coordinates, when present.
    pub fn cel(&self, cel_id: CelId) -> (r: Option<&RawCel>)
        ensures
            r is Some <==> self.spec_has(cel_id.frame as int, cel_id.layer as int),
            match r {
                Some(c) => *c == self.data@[cel_id.frame as int]@[cel_id.layer as int]->0,
                None => true,
            },
    {
        if (cel_id.frame as usize) < self.data.len() {
            let row = &self.data[cel_id.frame as usize];
            if (cel_id.layer as usize) < row.len() {
                match &row[cel_id.layer as usize] {
                    Some(c) => Some(c),
                    None => None,
                }
            } else {
                None
            }
        } else {
            None
        }
    }

}

impl CelsData {
    /// Whether a cel is stored at (frame, layer).
    pub open spec fn spec_has(&self, frame: int, layer: int) -> bool {
        0 <= frame < self.data@.len() && 0 <= layer < self.data@[frame]@.len()
            && self.data@[frame]@[layer] is Some
    }

    /// The cel stored at (frame, layer).
    pub open spec fn spec_cel(&self, frame: int, layer: int) -> Option<CelRecord> {
        if self.spec_has(frame, layer) {
            self.data@[frame]@[layer]
        } else {
            None
        }
    }

    /// Every linked cel points, in one hop, at an existing cel of the same
    /// layer that is itself not linked.
    pub open spec fn links_valid(&self) -> bool {
        forall|f: int, l: int|
            #![auto]
            self.spec_has(f, l) ==> match self.data@[f]@[l]->0.content {
                CelContent::Linked(f2) => self.spec_has(f2 as int, l) && !(
                self.data@[f2 as int]@[l]->0.content is Linked),
                _ => true,
            }
    }

    /// A reference to the cel at the given coordinates, when present.
    pub fn cel(&self, cel_id: CelId) -> (r: Option<&CelRecord>)
        ensures
            r is Some <==> self.spec_has(cel_id.frame as int, cel_id.layer as int),
            match r {
                Some(c) => Some(*c) == self.spec_cel(cel_id.frame as int, cel_id.layer as int),
                None => true,
            },
    {
        if (cel_id.frame as usize) < self.data.len() {
            let row = &self.data[cel_id.frame as usize];
            if (cel_id.layer as usize) < row.len() {
                match &row[cel_id.layer as usize] {
                    Some(c) => Some(c),
                    None => None,
                }
            } else {
                None
            }
        } else {
            None
        }
    }
}

/// How a validated cel relates to the parsed cel it came from: same common
/// fields and user data, same payload kind with the same size, link target
/// or tile grid.
pub open spec fn spec_cel_validated(a: RawCel, b: CelRecord) -> bool {
    &&& b.data == a.data
    &&& b.user_data == a.user_data
    &&& match a.content {
        RawCelContent::Raw(size, px) => b.content matches CelContent::Raw(s2, p2) && s2 == size,
        RawCelContent::Linked(f) => b.content == CelContent::Linked(f),
        RawCelContent::Tilemap(t) => b.content matches CelContent::Tilemap(t2) && t2 == t,
    }
}

/// The validity of one parsed cel at layer `l` of the store `d`: a plain
/// image holds exactly as many pixels as its size says and every indexed
/// pixel resolves through the palette; a linked cel points at an existing
/// cel of the same layer that is itself not linked (one hop); a tilemap cel
/// holds a consistent grid and sits on a tilemap layer.
pub open spec fn spec_raw_cel_valid(
    c: RawCel,
    l: int,
    d: Seq<Vec<Option<RawCel>>>,
    layers: &LayersData,
    palette: Option<&ColorPalette>,
) -> bool {
    match c.content {
        RawCelContent::Raw(size, px) => {
            &&& px.spec_len() == size.width as int * size.height as int
            &&& match px {
                RawPixels::Indexed(v) => palette is Some && forall|i: int|
                    #![auto]
                    0 <= i < v@.len() ==> palette->0.spec_has(v@[i] as u32),
                _ => true,
            }
        },
        RawCelContent::Linked(f2) => {
            &&& 0 <= f2 < d.len()
            &&& 0 <= l < d[f2 as int]@.len()
            &&& d[f2 as int]@[l] is Some
            &&& !(d[f2 as int]@[l]->0.content is Linked)
        },
        RawCelContent::Tilemap(t) => {
            &&& t.wf()
            &&& 0 <= l < layers.layers@.len()
            &&& layers.layers@[l].layer_type is Tilemap
        },
    }
}

/// The validity of a whole parsed cel store: every stored cel is valid.
pub open spec fn spec_cels_valid(
    d: Seq<Vec<Option<RawCel>>>,
    layers: &LayersData,
    palette: Option<&ColorPalette>,
) -> bool {
    forall|f: int, l: int|
        #![auto]
        0 <= f < d.len() && 0 <= l < d[f]@.len() && d[f]@[l] is Some ==> spec_raw_cel_valid(
            d[f]@[l]->0,
            l,
            d,
            layers,
            palette,
        )
}

impl CelsData {
    /// Raw cels hold exactly as many pixels as their size says, and tilemap
    /// cels sit on tilemap layers and hold consistent grids.
    pub open spec fn content_wf(&self, layers: Seq<crate::layer::LayerData>) -> bool {
        forall|f: int, l: int|
            #![auto]
            self.spec_has(f, l) ==> match self.data@[f]@[l]->0.content {
                CelContent::Raw(size, px) => px.spec_len() == size.width as int
                    * size.height as int,
                CelContent::Linked(_) => true,
                CelContent::Tilemap(t) => t.wf() && 0 <= l < layers.len()
                    && layers[l].layer_type is Tilemap,
            }
    }
}

/// Validate the parsed cel store. Succeeds exactly when every cel is valid:
/// every linked cel points, in one hop, at an existing non-linked cel of the
/// same layer; every tilemap cel holds a consistent grid and sits on a
/// tilemap layer; and every indexed pixel resolves through the palette. On
/// success every cel keeps its position, opacity, user data and content.
#[verifier::rlimit(60)]
pub fn validate_cels(
    raw: RawCelsData,
    layers: &LayersData,
    palette: Option<&ColorPalette>,
    transparent_color_index: Option<u8>,
) -> (r: Result<CelsData, AsepriteParseError>)
    requires
        match palette {
            Some(p) => p.wf(),
            None => true,
        },
    ensures
        r is Ok <==> spec_cels_valid(raw.data@, layers, palette),
        match r {
            Ok(out) => {
                &&& out.data@.len() == raw.data@.len()
                &&& forall|f: int| 0 <= f < raw.data@.len() ==> #[trigger] out.data@[f]@.len()
                    == raw.data@[f]@.len()
                &&& forall|f: int, l: int|
                    #![auto]
                    out.spec_has(f, l) <==> raw.spec_has(f, l)
                &&& forall|f: int, l: int|
                    #![auto]
                    raw.spec_has(f, l) ==> spec_cel_validated(
                        raw.data@[f]@[l]->0,
                        out.data@[f]@[l]->0,
                    )
                &&& out.links_valid()
                &&& out.content_wf(layers.layers@)
            },
            Err(e) => e is InvalidInput,
        },
{
    let num_frames = raw.data.len();
    let ghost rawdata = raw.data@;
    // A link target is valid exactly when it holds a cel that is itself not
    // a link.
    let mut linkable: Vec<Vec<bool>> = Vec::new();
    let mut f: usize = 0;
    while f < num_frames
        invariant
            num_frames == raw.data@.len(),
            rawdata == raw.data@,
            f <= num_frames,
            linkable@.len() == f,
            forall|f2: int, l2: int|
                #![auto]
                0 <= f2 < f && 0 <= l2 < linkable@[f2]@.len() ==> (linkable@[f2]@[l2] <==> (
                rawdata[f2]@[l2] is Some && !(rawdata[f2]@[l2]->0.content is Linked))),
            forall|f2: int|
                0 <= f2 < f ==> #[trigger] linkable@[f2]@.len() == rawdata[f2]@.len(),
        decreases num_frames - f,
    {
        let row = &raw.data[f];
        let mut lrow: Vec<bool> = Vec::new();
        let mut l: usize = 0;
        while l < row.len()
            invariant
                0 <= f < raw.data@.len(),
                row == raw.data@[f as int],
                l <= row@.len(),
                lrow@.len() == l,
                forall|l2: int|
                    #![auto]
                    0 <= l2 < l ==> (lrow@[l2] <==> (row@[l2] is Some && !(
                    row@[l2]->0.content is Linked))),
            decreases row@.len() - l,
        {
            let ok: bool = match &row[l] {
                Some(c) => match &c.content {
                    RawCelContent::Linked(_) => false,
                    _ => true,
                },
                None => false,
            };
            lrow.push(ok);
            l = l + 1;
        }
        linkable.push(lrow);
        f = f + 1;
    }
    // Validate and transform each cel, consuming the raw store.
    let mut store = raw;
    let mut out: Vec<Vec<Option<CelRecord>>> = Vec::new();
    let mut f: usize = 0;
    while f < num_frames
        invariant
            num_frames == rawdata.len(),
            rawdata == raw.data@,
            store.data@ =~= rawdata.subrange(f as int, num_frames as int),
            f <= num_frames,
            out@.len() == f,
            match palette {
                Some(p) => p.wf(),
                None => true,
            },
            linkable@.len() == num_frames,
            forall|f2: int, l2: int|
                #![auto]
                0 <= f2 < num_frames && 0 <= l2 < linkable@[f2]@.len() ==> (linkable@[f2]@[l2]
                    <==> (rawdata[f2]@[l2] is Some && !(rawdata[f2]@[l2]->0.content is Linked))),
            forall|f2: int|
                0 <= f2 < num_frames ==> #[trigger] linkable@[f2]@.len() == rawdata[f2]@.len(),
            forall|f2: int| 0 <= f2 < f ==> #[trigger] out@[f2]@.len() == rawdata[f2]@.len(),
            forall|f2: int, l2: int|
                #![auto]
                0 <= f2 < f && 0 <= l2 < out@[f2]@.len() ==> (out@[f2]@[l2] is Some <==> rawdata[f2]@[l2]
                    is Some),
            forall|f2: int, l2: int|
                #![auto]
                0 <= f2 < f && 0 <= l2 < out@[f2]@.len() && out@[f2]@[l2] is Some
                    ==> spec_cel_validated(rawdata[f2]@[l2]->0, out@[f2]@[l2]->0),
            forall|f2: int, l2: int|
                #![auto]
                0 <= f2 < f && 0 <= l2 < rawdata[f2]@.len() && rawdata[f2]@[l2] is Some
                    ==> spec_raw_cel_valid(rawdata[f2]@[l2]->0, l2, rawdata, layers, palette),
            forall|f2: int, l2: int|
                #![auto]
                0 <= f2 < f && 0 <= l2 < out@[f2]@.len() && out@[f2]@[l2] is Some
                    ==> match out@[f2]@[l2]->0.content {
                    CelContent::Raw(size, px) => px.spec_len() == size.width as int
                        * size.height as int,
                    CelContent::Linked(lf) => lf < num_frames && 0 <= l2 < rawdata[
                        lf as int
                    ]@.len() && rawdata[lf as int]@[l2] is Some && !(rawdata[
                        lf as int
                    ]@[l2]->0.content is Linked),
                    CelContent::Tilemap(t) => t.wf() && 0 <= l2 < layers.layers@.len()
                        && layers.layers@[l2].layer_type is Tilemap,
                },
        decreases num_frames - f,
    {
        let mut row = store.data.remove(0);
        proof {
            assert(row == rawdata[f as int]);
            assert(store.data@ =~= rawdata.subrange(f as int + 1, num_frames as int));
        }
        let ghost rowseq = row@;
        let row_len = row.len();
        let mut orow: Vec<Option<CelRecord>> = Vec::new();
        let mut l: usize = 0;
        while l < row_len
            invariant
                0 <= f < num_frames == rawdata.len(),
                rawdata == raw.data@,
                rowseq == rawdata[f as int]@,
                row_len == rowseq.len(),
                row@ =~= rowseq.subrange(l as int, row_len as int),
                l <= row_len,
                orow@.len() == l,
                match palette {
                    Some(p) => p.wf(),
                    None => true,
                },
                linkable@.len() == num_frames,
                forall|f2: int, l2: int|
                    #![auto]
                    0 <= f2 < num_frames && 0 <= l2 < linkable@[f2]@.len() ==> (linkable@[f2]@[l2]
                        <==> (rawdata[f2]@[l2] is Some && !(rawdata[f2]@[l2]->0.content
                        is Linked))),
                forall|f2: int|
                    0 <= f2 < num_frames ==> #[trigger] linkable@[f2]@.len() == rawdata[
                        f2
                    ]@.len(),
                forall|l2: int|
                    #![auto]
                    0 <= l2 < l ==> (orow@[l2] is Some <==> rowseq[l2] is Some),
                forall|l2: int|
                    #![auto]
                    0 <= l2 < l && orow@[l2] is Some ==> spec_cel_validated(
                        rowseq[l2]->0,
                        orow@[l2]->0,
                    ),
                forall|f2: int, l2: int|
                    #![auto]
                    0 <= f2 < f && 0 <= l2 < rawdata[f2]@.len() && rawdata[f2]@[l2] is Some
                        ==> spec_raw_cel_valid(rawdata[f2]@[l2]->0, l2, rawdata, layers, palette),
                forall|l2: int|
                    #![auto]
                    0 <= l2 < l && rowseq[l2] is Some ==> spec_raw_cel_valid(
                        rowseq[l2]->0,
                        l2,
                        rawdata,
                        layers,
                        palette,
                    ),
                forall|l2: int|
                    #![auto]
                    0 <= l2 < l && orow@[l2] is Some ==> match orow@[l2]->0.content {
                        CelContent::Raw(size, px) => px.spec_len() == size.width as int
                            * size.height as int,
                        CelContent::Linked(lf) => lf < num_frames && 0 <= l2 < rawdata[
                            lf as int
                        ]@.len() && rawdata[lf as int]@[l2] is Some && !(rawdata[
                            lf as int
                        ]@[l2]->0.content is Linked),
                        CelContent::Tilemap(t) => t.wf() && 0 <= l2 < layers.layers@.len()
                            && layers.layers@[l2].layer_type is Tilemap,
                    },
            decreases row_len - l,
        {
            let slotin: Option<RawCel> = row.remove(0);
            proof {
                assert(slotin == rowseq[l as int]);
                assert(row@ =~= rowseq.subrange(l as int + 1, row_len as int));
            }
            let slot: Option<CelRecord> = match slotin {
                None => None,
                Some(c) => {
                    let ghost gcel = c;
                    let RawCel { data, content, user_data } = c;
                    let ghost gcontent = content;
                    match content {
                        RawCelContent::Raw(size, px) => {
                            let ghost gpx = px;
                            let is_bg: bool = if l < layers.layers.len() {
                                layers.layers[l].is_background()
                            } else {
                                false
                            };
                            let validated = match px.validate(
                                palette,
                                transparent_color_index,
                                is_bg,
                            ) {
                                Ok(p) => p,
                                Err(e) => {
                                    proof {
                                        lemma_resolution_failure(
                                            gpx,
                                            palette,
                                            transparent_color_index,
                                            is_bg,
                                        );
                                        assert(!spec_raw_cel_valid(
                                            gcel,
                                            l as int,
                                            rawdata,
                                            layers,
                                            palette,
                                        ));
                                        assert(!spec_cels_valid(rawdata, layers, palette));
                                    }
                                    return Err(e);
                                },
                            };
                            if validated.len() != size.pixel_count() {
                                proof {
                                    assert(!spec_raw_cel_valid(
                                        gcel,
                                        l as int,
                                        rawdata,
                                        layers,
                                        palette,
                                    ));
                                    assert(!spec_cels_valid(rawdata, layers, palette));
                                }
                                return Err(
                                    AsepriteParseError::InvalidInput(
                                        "cel pixel data does not match its size".to_owned(),
                                    ),
                                );
                            }
                            proof {
                                lemma_resolution_success(
                                    gpx,
                                    palette,
                                    transparent_color_index,
                                    is_bg,
                                );
                                assert(spec_raw_cel_valid(
                                    gcel,
                                    l as int,
                                    rawdata,
                                    layers,
                                    palette,
                                ));
                            }
                            Some(
                                CelRecord {
                                    data,
                                    content: CelContent::Raw(size, validated),
                                    user_data,
                                },
                            )
                        },
                        RawCelContent::Linked(f2) => {
                            let lf = f2 as usize;
                            let mut ok = false;
                            if lf < linkable.len() {
                                let lrow = &linkable[lf];
                                if l < lrow.len() {
                                    ok = lrow[l];
                                }
                            }
                            if !ok {
                                proof {
                                    assert(!spec_raw_cel_valid(
                                        gcel,
                                        l as int,
                                        rawdata,
                                        layers,
                                        palette,
                                    ));
                                    assert(!spec_cels_valid(rawdata, layers, palette));
                                }
                                return Err(
                                    AsepriteParseError::InvalidInput(
                                        "cel is not a valid target for a linked cel".to_owned(),
                                    ),
                                );
                            }
                            proof {
                                assert(spec_raw_cel_valid(
                                    gcel,
                                    l as int,
                                    rawdata,
                                    layers,
                                    palette,
                                ));
                            }
                            Some(
                                CelRecord {
                                    data,
                                    content: CelContent::Linked(f2),
                                    user_data,
                                },
                            )
                        },
                        RawCelContent::Tilemap(t) => {
                            let mut on_tilemap_layer = false;
                            if l < layers.layers.len() {
                                match layers.layers[l].layer_type {
                                    LayerType::Tilemap(_) => {
                                        on_tilemap_layer = true;
                                    },
                                    _ => {},
                                }
                            }
                            if !on_tilemap_layer {
                                proof {
                                    assert(!spec_raw_cel_valid(
                                        gcel,
                                        l as int,
                                        rawdata,
                                        layers,
                                        palette,
                                    ));
                                    assert(!spec_cels_valid(rawdata, layers, palette));
                                }
                                return Err(
                                    AsepriteParseError::InvalidInput(
                                        "tilemap cel outside of a tilemap layer".to_owned(),
                                    ),
                                );
                            }
                            if !t.check_wf() {
                                proof {
                                    assert(!spec_raw_cel_valid(
                                        gcel,
                                        l as int,
                                        rawdata,
                                        layers,
                                        palette,
                                    ));
                                    assert(!spec_cels_valid(rawdata, layers, palette));
                                }
                                return Err(
                                    AsepriteParseError::InvalidInput(
                                        "tilemap grid does not match its size".to_owned(),
                                    ),
                                );
                            }
                            proof {
                                assert(spec_raw_cel_valid(
                                    gcel,
                                    l as int,
                                    rawdata,
                                    layers,
                                    palette,
                                ));
                            }
                            Some(
                                CelRecord {
                                    data,
                                    content: CelContent::Tilemap(t),
                                    user_data,
                                },
                            )
                        },
                    }
                },
            };
            orow.push(slot);
            l = l + 1;
        }
        out.push(orow);
        f = f + 1;
    }
    let result = CelsData { data: out };
    proof {
        assert forall|f2: int, l2: int|
            #![auto]
            result.spec_has(f2, l2) implies match result.data@[f2]@[l2]->0.content {
            CelContent::Linked(lf) => result.spec_has(lf as int, l2) && !(
            result.data@[lf as int]@[l2]->0.content is Linked),
            _ => true,
        } by {
            if result.spec_has(f2, l2) {
                match result.data@[f2]@[l2]->0.content {
                    CelContent::Linked(lf) => {
                        assert(rawdata[lf as int]@[l2] is Some && !(rawdata[
                        lf as int]@[l2]->0.content is Linked));
                        assert(result.spec_has(lf as int, l2));
                        assert(spec_cel_validated(
                            rawdata[lf as int]@[l2]->0,
                            result.data@[lf as int]@[l2]->0,
                        ));
                    },
                    _ => {},
                }
            }
        }
    }
    Ok(result)
}

/// When resolving an indexed plane fails, some index is missing from the
/// palette (or there is no palette).
pub(crate) proof fn lemma_resolution_failure(
    px: RawPixels,
    palette: Option<&ColorPalette>,
    transparent_color_index: Option<u8>,
    is_bg: bool,
)
    requires
        !(match px {
            RawPixels::Rgba(_) => true,
            RawPixels::Grayscale(_) => true,
            RawPixels::Indexed(v) => palette is Some && forall|i: int|
                #![auto]
                0 <= i < v@.len() ==> crate::pixel::spec_resolve_index(
                    *palette->Some_0,
                    transparent_color_index,
                    is_bg,
                    v@[i],
                ) is Some,
        }),
    ensures
        !(match px {
            RawPixels::Indexed(v) => palette is Some && forall|i: int|
                #![auto]
                0 <= i < v@.len() ==> palette->0.spec_has(v@[i] as u32),
            _ => true,
        }),
{
    match px {
        RawPixels::Indexed(v) => {
            if palette is Some {
                let i = choose|i: int|
                    0 <= i < v@.len() && !(crate::pixel::spec_resolve_index(
                        *palette->Some_0,
                        transparent_color_index,
                        is_bg,
                        v@[i],
                    ) is Some);
                assert(!palette->0.spec_has(v@[i] as u32));
            }
        },
        _ => {},
    }
}

/// When resolving an indexed plane succeeds, every index is in the palette.
pub(crate) proof fn lemma_resolution_success(
    px: RawPixels,
    palette: Option<&ColorPalette>,
    transparent_color_index: Option<u8>,
    is_bg: bool,
)
    requires
        match px {
            RawPixels::Rgba(_) => true,
            RawPixels::Grayscale(_) => true,
            RawPixels::Indexed(v) => palette is Some && forall|i: int|
                #![auto]
                0 <= i < v@.len() ==> crate::pixel::spec_resolve_index(
                    *palette->Some_0,
                    transparent_color_index,
                    is_bg,
                    v@[i],
                ) is Some,
        },
    ensures
        match px {
            RawPixels::Indexed(v) => palette is Some && forall|i: int|
                #![auto]
                0 <= i < v@.len() ==> palette->0.spec_has(v@[i] as u32),
            _ => true,
        },
{
    match px {
        RawPixels::Indexed(v) => {
            assert forall|i: int| 0 <= i < v@.len() implies #[trigger] palette->0.spec_has(
                v@[i] as u32,
            ) by {
                assert(crate::pixel::spec_resolve_index(
                    *palette->Some_0,
                    transparent_color_index,
                    is_bg,
                    v@[i],
                ) is Some);
            }
        },
        _ => {},
    }
}

} // verus!
