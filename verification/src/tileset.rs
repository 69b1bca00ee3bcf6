//! Tilesets: named collections of same-sized tile images.

use crate::error::AsepriteParseError;
use crate::external_file::ExternalFileId;
use crate::palette::ColorPalette;
use crate::pixel::{Pixels, RawPixels};
use crate::reader::AseReader;
use vstd::prelude::*;

verus! {

/// A tileset's reference to an external file.
#[derive(Debug, Clone)]
pub struct ExternalTilesetReference {
    external_file_id: ExternalFileId,
    tileset_id: u32,
}

impl ExternalTilesetReference {
    /// The id of the external file.
    pub closed spec fn spec_external_file_id(&self) -> ExternalFileId {
        self.external_file_id
    }

    /// The id of the tileset within the external file.
    pub closed spec fn spec_tileset_id(&self) -> u32 {
        self.tileset_id
    }

    /// The id of the external file.
    pub fn external_file_id(&self) -> (r: ExternalFileId)
        ensures
            r == self.spec_external_file_id(),
    {
        self.external_file_id
    }

    /// The id of the tileset within the external file.
    pub fn tileset_id(&self) -> (r: u32)
        ensures
            r == self.spec_tileset_id(),
    {
        self.tileset_id
    }

    /// Decode the two-dword reference: the external file id, then the
    /// tileset id within that file. Succeeds exactly when eight bytes remain.
    pub fn parse(reader: &mut AseReader<'_>) -> (r: Result<
        ExternalTilesetReference,
        AsepriteParseError,
    >)
        requires
            old(reader).wf(),
        ensures
            final(reader).wf(),
            final(reader).bytes() == old(reader).bytes(),
            r is Ok <==> old(reader).spec_remaining() >= 8,
            match r {
                Ok(t) => {
                    let b = old(reader).bytes();
                    let p = old(reader).position();
                    &&& t.spec_external_file_id() == crate::external_file::ExternalFileId(
                        crate::reader::le32(b, p),
                    )
                    &&& t.spec_tileset_id() == crate::reader::le32(b, p + 4)
                    &&& final(reader).position() == p + 8
                },
                Err(e) => e is IoError,
            },
    {
        let external_file_id = match reader.dword() {
            Ok(v) => ExternalFileId::new(v),
            Err(e) => { return Err(e) },
        };
        let tileset_id = match reader.dword() {
            Ok(v) => v,
            Err(e) => { return Err(e) },
        };
        Ok(ExternalTilesetReference { external_file_id, tileset_id })
    }
}

/// The pixel size of a tile.
#[derive(Debug, Clone, Copy, PartialEq, Eq, Structural)]
pub struct TileSize {
    width: u16,
    height: u16,
}

impl TileSize {
    /// Tile width in pixels.
    pub closed spec fn spec_width(&self) -> u16 {
        self.width
    }

    /// Tile height in pixels.
    pub closed spec fn spec_height(&self) -> u16 {
        self.height
    }

    /// Build a tile size.
    pub fn new(width: u16, height: u16) -> (r: TileSize)
        ensures
            r.spec_width() == width,
            r.spec_height() == height,
    {
        TileSize { width, height }
    }

    /// Tile width in pixels.
    pub fn width(&self) -> (r: u16)
        ensures
            r == self.spec_width(),
    {
        self.width
    }

    /// Tile height in pixels.
    pub fn height(&self) -> (r: u16)
        ensures
            r == self.spec_height(),
    {
        self.height
    }

    /// Pixels per tile: width times height.
    pub fn pixels_per_tile(&self) -> (r: u32)
        ensures
            r == self.spec_width() as int * self.spec_height() as int,
    {
        proof {
            assert(self.spec_width() as int * self.spec_height() as int <= 0xffff * 0xffff)
                by (nonlinear_arith)
                requires
                    self.spec_width() <= 0xffff && self.spec_height() <= 0xffff,
            ;
        }
        (self.width as u32) * (self.height as u32)
    }
}

/// A tileset whose pixel data has not yet been validated.
#[derive(Debug)]
pub struct RawTileset {
    /// Tileset id.
    pub id: u32,
    /// Whether tile id 0 stands for the empty tile.
    pub empty_tile_is_id_zero: bool,
    /// Number of tiles.
    pub tile_count: u32,
    /// The pixel size of each tile.
    pub tile_size: TileSize,
    /// Display-only base index.
    pub base_index: i16,
    /// The tileset's name.
    pub name: String,
    /// An external-file link, when present.
    pub external_file: Option<ExternalTilesetReference>,
    /// Embedded pixel data, when present.
    pub pixels: Option<RawPixels>,
}

/// A validated tileset: embedded pixels resolved and sized to
/// `tile_count * tile_width * tile_height`.
#[derive(Debug)]
pub struct Tileset {
    /// Tileset id.
    pub id: u32,
    /// Whether tile id 0 stands for the empty tile.
    pub empty_tile_is_id_zero: bool,
    /// Number of tiles.
    pub tile_count: u32,
    /// The pixel size of each tile.
    pub tile_size: TileSize,
    /// Display-only base index.
    pub base_index: i16,
    /// The tileset's name.
    pub name: String,
    /// An external-file link, when present.
    pub external_file: Option<ExternalTilesetReference>,
    /// The validated pixel plane, one tile after another.
    pub pixels: Option<Pixels>,
}

impl Tileset {
    /// The embedded pixel plane holds exactly one tile image per tile.
    pub open spec fn wf(&self) -> bool {
        match self.pixels {
            Some(p) => p.spec_len() == self.tile_count as int * self.tile_size.spec_width() as int
                * self.tile_size.spec_height() as int,
            None => true,
        }
    }

    /// Tileset id.
    pub fn id(&self) -> (r: u32)
        ensures
            r == self.id,
    {
        self.id
    }

    /// When true, tilemaps using this tileset use tile id 0 as the empty tile.
    pub fn empty_tile_is_id_zero(&self) -> (r: bool)
        ensures
            r == self.empty_tile_is_id_zero,
    {
        self.empty_tile_is_id_zero
    }

    /// Number of tiles.
    pub fn tile_count(&self) -> (r: u32)
        ensures
            r == self.tile_count,
    {
        self.tile_count
    }

    /// Tile width and height.
    pub fn tile_size(&self) -> (r: TileSize)
        ensures
            r == self.tile_size,
    {
        self.tile_size
    }

    /// The display-only number shown for tile 0.
    pub fn base_index(&self) -> (r: i16)
        ensures
            r == self.base_index,
    {
        self.base_index
    }

    /// The tileset's name; not necessarily unique.
    pub fn name(&self) -> (r: &str)
        ensures
            r@ == self.name@,
    {
        self.name.as_str()
    }

    /// The external-file link, when present.
    pub fn external_file(&self) -> (r: Option<&ExternalTilesetReference>)
        ensures
            r is Some <==> self.external_file is Some,
    {
        match &self.external_file {
            Some(e) => Some(e),
            None => None,
        }
    }

    /// The image of one tile.
    pub fn tile_image(&self, tile_index: u32) -> (r: Option<crate::file::Bitmap>)
        requires
            self.wf(),
        ensures
            r matches Some(b) ==> b.wf() && b.spec_width() == self.tile_size.spec_width()
                && b.spec_height() == self.tile_size.spec_height(),
    {
        let px = match &self.pixels {
            Some(p) => p,
            None => { return None },
        };
        if tile_index >= self.tile_count {
            return None;
        }
        let tw = self.tile_size.width();
        let th = self.tile_size.height();
        let ppt: u32 = self.tile_size.pixels_per_tile();
        proof {
            assert(tile_index as int * (ppt as int) + ppt as int <= self.tile_count as int * (
            ppt as int)) by (nonlinear_arith)
                requires
                    (tile_index as int) < self.tile_count as int && 0 <= ppt as int,
            ;
            assert(self.tile_count as int * (ppt as int) == self.tile_count as int
                * (self.tile_size.spec_width() as int) * (self.tile_size.spec_height() as int))
                by (nonlinear_arith)
                requires
                    ppt as int == self.tile_size.spec_width() as int
                        * self.tile_size.spec_height() as int,
            ;
            assert(ppt as int <= 0xffff * 0xffff) by (nonlinear_arith)
                requires
                    ppt as int == self.tile_size.spec_width() as int
                        * self.tile_size.spec_height() as int && self.tile_size.spec_width()
                        <= 0xffff && self.tile_size.spec_height() <= 0xffff,
            ;
            assert(tile_index as int * (ppt as int) <= 0xffffffff * (0xffff * 0xffff))
                by (nonlinear_arith)
                requires
                    tile_index <= 0xffffffffu32 && 0 <= ppt as int <= 0xffff * 0xffff,
            ;
        }
        let all = px.clone_as_image_rgba();
        let start_wide: u64 = (tile_index as u64) * (ppt as u64);
        if start_wide + (ppt as u64) > all.len() as u64 {
            return None;
        }
        let start: usize = start_wide as usize;
        let mut out: Vec<crate::blend::Rgba8> = Vec::new();
        let mut i: usize = 0;
        while i < ppt as usize
            invariant
                out@.len() == i,
                i <= ppt,
                start + ppt <= all@.len(),
                all@.len() <= usize::MAX,
            decreases ppt - i,
        {
            out.push(all[start + i]);
            i = i + 1;
        }
        crate::file::Bitmap::from_pixels(tw, th, out)
    }

    /// All tiles as one long vertical image, one tile after another. `None`
    /// when the stacked image would be taller than a bitmap can hold.
    pub fn image(&self) -> (r: Option<crate::file::Bitmap>)
        requires
            self.wf(),
        ensures
            r matches Some(b) ==> b.wf() && b.spec_width() == self.tile_size.spec_width(),
    {
        let px = match &self.pixels {
            Some(p) => p,
            None => { return None },
        };
        let tw = self.tile_size.width();
        let th = self.tile_size.height();
        proof {
            assert(th as int * (self.tile_count as int) <= 0xffff * 0xffffffff)
                by (nonlinear_arith)
                requires
                    th <= 0xffff && self.tile_count <= 0xffffffffu32,
            ;
        }
        let total_h_wide: u64 = (th as u64) * (self.tile_count as u64);
        if total_h_wide > 0xffff {
            return None;
        }
        let all = px.clone_as_image_rgba();
        crate::file::Bitmap::from_pixels(tw, total_h_wide as u16, all)
    }
}

/// The effective flags of a tileset chunk: the reference decoder falls back
/// to "empty tile is id zero" alone when any unknown flag bit is set.
pub open spec fn spec_tileset_flags(s: Seq<u8>) -> u32 {
    if crate::reader::le32(s, 4) & 0xfffffff8 != 0 {
        4
    } else {
        crate::reader::le32(s, 4)
    }
}

/// The payload offset of a tileset chunk's compressed pixel block: after the
/// name string and, when the external-file bit is set, the 8-byte reference.
pub open spec fn spec_tileset_pixels_off(s: Seq<u8>) -> int {
    crate::reader::spec_string_end(s, 32) + (if spec_tileset_flags(s) & 1 == 1 {
        8int
    } else {
        0int
    })
}

/// True when a tileset chunk payload is well-formed: the 32 fixed header
/// bytes, the name, the external reference when its bit is set, and a pixel
/// block inflating to exactly one image per tile when its bit is set.
pub open spec fn spec_tileset_chunk_ok(s: Seq<u8>, format: crate::file::PixelFormat) -> bool {
    let fl = spec_tileset_flags(s);
    let count = crate::reader::le32(s, 8) as int;
    let tw = crate::reader::le16(s, 12) as int;
    let th = crate::reader::le16(s, 14) as int;
    let po = spec_tileset_pixels_off(s);
    &&& s.len() >= 32
    &&& crate::reader::spec_string_ok(s, 32)
    &&& (fl & 1 == 1 ==> crate::reader::spec_string_end(s, 32) + 8 <= s.len())
    &&& (fl & 2 == 2 ==> {
        &&& po + 4 <= s.len()
        &&& count * tw * th * 4 <= usize::MAX
        &&& (crate::reader::zlib_inflate(s.subrange(po + 4, s.len() as int)) matches Some(out)
            && out.len() == crate::file::spec_bytes_per_pixel(format) * (count * tw * th))
    })
}

impl RawTileset {
    /// Decode a tileset chunk into a raw tileset. Succeeds exactly on a
    /// well-formed payload; the id, flags, tile count, tile size, base
    /// index, name, external reference and decoded pixels are all tied to
    /// the payload bytes.
    pub fn parse_chunk(data: &[u8], pixel_format: crate::file::PixelFormat) -> (r: Result<
        RawTileset,
        AsepriteParseError,
    >)
    ensures
        r is Ok <==> spec_tileset_chunk_ok(data@, pixel_format),
        match r {
            Ok(t) => {
                let fl = spec_tileset_flags(data@);
                &&& t.id == crate::reader::le32(data@, 0)
                &&& t.empty_tile_is_id_zero == (fl & 4 == 4)
                &&& t.tile_count == crate::reader::le32(data@, 8)
                &&& t.tile_size.spec_width() == crate::reader::le16(data@, 12)
                &&& t.tile_size.spec_height() == crate::reader::le16(data@, 14)
                &&& t.base_index == crate::reader::le16_signed(data@, 16)
                &&& t.name@ == crate::reader::spec_string_at(data@, 32)
                &&& (t.external_file is Some <==> fl & 1 == 1)
                &&& (fl & 1 == 1 ==> t.external_file->0.spec_external_file_id()
                    == crate::external_file::ExternalFileId(
                    crate::reader::le32(data@, crate::reader::spec_string_end(data@, 32)),
                ) && t.external_file->0.spec_tileset_id() == crate::reader::le32(
                    data@,
                    crate::reader::spec_string_end(data@, 32) + 4,
                ))
                &&& (t.pixels is Some <==> fl & 2 == 2)
                &&& (fl & 2 == 2 ==> t.pixels->0.spec_len() == t.tile_count as int
                    * t.tile_size.spec_width() as int * t.tile_size.spec_height() as int
                    && t.pixels->0.spec_is_decode_of(
                    crate::reader::zlib_inflate(
                        data@.subrange(spec_tileset_pixels_off(data@) + 4, data@.len() as int),
                    )->0,
                    pixel_format,
                ))
            },
            Err(e) => e is InvalidInput || e is IoError,
        },
{
    let mut reader = AseReader::new(data);
    let id = match reader.dword() {
        Ok(v) => v,
        Err(e) => { return Err(e) },
    };
    let flags_raw = match reader.dword() {
        Ok(v) => v,
        Err(e) => { return Err(e) },
    };
    // The reference decoder falls back to "empty tile is id zero" when any
    // unknown flag bit is set.
    let flags: u32 = if flags_raw & 0xfffffff8 != 0 {
        4
    } else {
        flags_raw
    };
    let empty_tile_is_id_zero = flags & 4 == 4;
    let tile_count = match reader.dword() {
        Ok(v) => v,
        Err(e) => { return Err(e) },
    };
    let tile_width = match reader.word() {
        Ok(v) => v,
        Err(e) => { return Err(e) },
    };
    let tile_height = match reader.word() {
        Ok(v) => v,
        Err(e) => { return Err(e) },
    };
    let tile_size = TileSize::new(tile_width, tile_height);
    let base_index = match reader.short() {
        Ok(v) => v,
        Err(e) => { return Err(e) },
    };
    match reader.skip_reserved(14) {
        Ok(_) => (),
        Err(e) => { return Err(e) },
    }
    let name = match reader.string() {
        Ok(v) => v,
        Err(e) => { return Err(e) },
    };
    let external_file: Option<ExternalTilesetReference> = if flags & 1 == 1 {
        match ExternalTilesetReference::parse(&mut reader) {
            Ok(v) => Some(v),
            Err(e) => { return Err(e) },
        }
    } else {
        None
    };
    let pixels: Option<RawPixels> = if flags & 2 == 2 {
        let _compressed_length = match reader.dword() {
            Ok(v) => v,
            Err(e) => { return Err(e) },
        };
        proof {
            assert(tile_count as int * (tile_width as int) <= 0xffffffff * 0xffff)
                by (nonlinear_arith)
                requires
                    tile_count <= 0xffffffffu32 && tile_width <= 0xffff,
            ;
            assert(tile_count as int * (tile_width as int) * (tile_height as int) <= 0xffffffff
                * 0xffff * 0xffff) by (nonlinear_arith)
                requires
                    tile_count as int * (tile_width as int) <= 0xffffffff * 0xffff && tile_height
                        <= 0xffff,
            ;
        }
        let pixel_count_wide: u128 = (tile_count as u128) * (tile_width as u128) * (
        tile_height as u128);
        if pixel_count_wide * 4 > usize::MAX as u128 {
            return Err(AsepriteParseError::InvalidInput("tileset too large".to_owned()));
        }
        let expected_pixel_count: usize = pixel_count_wide as usize;
        match RawPixels::from_compressed(&mut reader, pixel_format, expected_pixel_count) {
            Ok(v) => Some(v),
            Err(e) => { return Err(e) },
        }
    } else {
        None
    };
    Ok(
        RawTileset {
            id,
            empty_tile_is_id_zero,
            tile_count,
            tile_size,
            base_index,
            name,
            external_file,
            pixels,
        },
    )
    }
}

/// The tileset of `s` carrying the given id, when one exists.
pub open spec fn spec_ts_get(s: Seq<Tileset>, id: u32) -> Option<Tileset> {
    if exists|i: int| 0 <= i < s.len() && s[i].id == id {
        Some(s[choose|i: int| 0 <= i < s.len() && s[i].id == id])
    } else {
        None
    }
}

/// After replacing the entry at `i` (or pushing at the end), the table holds
/// the new tileset under its id and every other id resolves as before.
proof fn lemma_ts_table_update(olds: Seq<Tileset>, news: Seq<Tileset>, ts: Tileset, i: int, replaced: bool)
    requires
        forall|a: int, b: int| 0 <= a < b < olds.len() ==> olds[a].id != olds[b].id,
        forall|j: int| 0 <= j < i ==> olds[j].id != ts.id,
        replaced ==> 0 <= i < olds.len() && olds[i].id == ts.id && news == olds.update(i, ts),
        !replaced ==> i == olds.len() && news == olds.push(ts),
    ensures
        forall|a: int, b: int| 0 <= a < b < news.len() ==> news[a].id != news[b].id,
        spec_ts_get(news, ts.id) == Some(ts),
        forall|x: u32| x != ts.id ==> spec_ts_get(news, x) == spec_ts_get(olds, x),
{
    assert(news[i] == ts);
    assert forall|a: int, b: int| 0 <= a < b < news.len() implies news[a].id != news[b].id by {
        if a != i && b != i {
            assert(olds[a].id != olds[b].id);
        } else if b == i && replaced {
            assert(olds[a].id != olds[b].id);
        }
    }
    assert(spec_ts_get(news, ts.id) == Some(ts)) by {
        let c = choose|k: int| 0 <= k < news.len() && news[k].id == ts.id;
        if c != i {
            assert(news[c].id != news[i].id);
        }
    }
    assert forall|x: u32| x != ts.id implies spec_ts_get(news, x) == spec_ts_get(olds, x) by {
        if exists|k: int| 0 <= k < news.len() && news[k].id == x {
            let c = choose|k: int| 0 <= k < news.len() && news[k].id == x;
            assert(c != i);
            assert(olds[c] == news[c]);
            let c2 = choose|k: int| 0 <= k < olds.len() && olds[k].id == x;
            if c2 != c {
                if c2 == i && replaced {
                    assert(olds[c2].id == ts.id);
                } else {
                    assert(news[c2] == olds[c2]);
                    if c2 < c {
                        assert(news[c2].id != news[c].id);
                    } else {
                        assert(news[c].id != news[c2].id);
                    }
                }
            }
        } else {
            if exists|k: int| 0 <= k < olds.len() && olds[k].id == x {
                let c2 = choose|k: int| 0 <= k < olds.len() && olds[k].id == x;
                if c2 == i && replaced {
                    assert(olds[c2].id == ts.id);
                } else {
                    assert(news[c2] == olds[c2]);
                    assert(news[c2].id == x);
                }
            }
        }
    }
}

/// An error reported while producing a tileset image.
#[derive(Debug, Clone, PartialEq, Eq, Structural)]
pub enum TilesetImageError {
    /// No tileset was found for the given id.
    MissingTilesetId(u32),
    /// No pixel data is stored in the tileset with the given id.
    NoPixelsInTileset(u32),
}

/// The tilesets of a document, addressable by id.
#[derive(Debug)]
pub struct TilesetsById {
    entries: Vec<Tileset>,
}

impl TilesetsById {
    /// The stored tilesets.
    pub closed spec fn spec_entries(&self) -> Seq<Tileset> {
        self.entries@
    }

    /// Ids are unique and every tileset is internally consistent and holds
    /// its pixel data.
    pub open spec fn wf(&self) -> bool {
        &&& forall|i: int, j: int|
            0 <= i < j < self.spec_entries().len() ==> self.spec_entries()[i].id
                != self.spec_entries()[j].id
        &&& forall|i: int|
            0 <= i < self.spec_entries().len() ==> (#[trigger] self.spec_entries()[i]).wf()
        &&& forall|i: int|
            0 <= i < self.spec_entries().len() ==> (#[trigger] self.spec_entries()[i]).pixels
                is Some
    }

    /// Whether a tileset with the given id is stored.
    pub open spec fn spec_has(&self, id: u32) -> bool {
        exists|i: int| 0 <= i < self.spec_entries().len() && self.spec_entries()[i].id == id
    }

    /// The tileset with the given id, when stored.
    pub open spec fn spec_get(&self, id: u32) -> Option<Tileset> {
        spec_ts_get(self.spec_entries(), id)
    }

    /// An empty table.
    pub fn new() -> (r: TilesetsById)
        ensures
            r.wf(),
            r.spec_entries().len() == 0,
    {
        TilesetsById { entries: Vec::new() }
    }

    /// Number of tilesets.
    pub fn len(&self) -> (r: u32)
        requires
            self.spec_entries().len() <= u32::MAX,
        ensures
            r == self.spec_entries().len(),
    {
        self.entries.len() as u32
    }

    /// True when no tileset is stored.
    pub fn is_empty(&self) -> (r: bool)
        ensures
            r == (self.spec_entries().len() == 0),
    {
        self.entries.len() == 0
    }

    /// All stored tilesets, in insertion order.
    pub fn as_vec(&self) -> (r: &Vec<Tileset>)
        ensures
            r@ == self.spec_entries(),
    {
        &self.entries
    }

    /// Register a tileset: a later `add` with an equal id replaces the
    /// earlier entry; every other entry is untouched.
    pub fn add(&mut self, tileset: Tileset)
        requires
            old(self).wf(),
            tileset.wf(),
            tileset.pixels is Some,
        ensures
            final(self).wf(),
            final(self).spec_get(tileset.id) == Some(tileset),
            forall|x: u32| x != tileset.id ==> final(self).spec_get(x) == old(self).spec_get(x),
    {
        let ghost ts = tileset;
        let mut i: usize = 0;
        while i < self.entries.len()
            invariant
                self.wf(),
                tileset == ts,
                self.spec_entries() == old(self).spec_entries(),
                tileset.wf(),
                tileset.pixels is Some,
                i <= self.spec_entries().len(),
                forall|j: int| 0 <= j < i ==> self.spec_entries()[j].id != tileset.id,
            decreases self.spec_entries().len() - i,
        {
            if self.entries[i].id == tileset.id {
                let ghost olds = self.spec_entries();
                proof {
                    let news = olds.update(i as int, ts);
                    assert forall|a: int| 0 <= a < news.len() implies (#[trigger] news[a]).wf() by {
                        if a != i {
                            assert(olds[a].wf());
                        }
                    }
                    assert forall|a: int| 0 <= a < news.len() implies (#[trigger] news[a]).pixels
                        is Some by {
                        if a != i {
                            assert(olds[a].pixels is Some);
                        }
                    }
                }
                self.entries.set(i, tileset);
                proof {
                    lemma_ts_table_update(olds, self.spec_entries(), ts, i as int, true);
                }
                return ;
            }
            i = i + 1;
        }
        let ghost olds = self.spec_entries();
        self.entries.push(tileset);
        proof {
            lemma_ts_table_update(olds, self.spec_entries(), ts, olds.len() as int, false);
        }
    }

    /// Look up a tileset by id.
    pub fn get(&self, id: u32) -> (r: Option<&Tileset>)
        requires
            self.wf(),
        ensures
            match r {
                Some(t) => t.id == id && t.wf() && t.pixels is Some && self.spec_get(id) == Some(
                    *t,
                ),
                None => !self.spec_has(id),
            },
    {
        let mut i: usize = 0;
        while i < self.entries.len()
            invariant
                self.wf(),
                i <= self.spec_entries().len(),
                forall|j: int| 0 <= j < i ==> self.spec_entries()[j].id != id,
            decreases self.spec_entries().len() - i,
        {
            if self.entries[i].id == id {
                proof {
                    assert(self.spec_entries()[i as int].id == id);
                    assert(self.spec_has(id));
                    let c = choose|k: int|
                        0 <= k < self.spec_entries().len() && self.spec_entries()[k].id == id;
                    if c < i {
                        assert(self.spec_entries()[c].id != self.spec_entries()[i as int].id);
                    } else if c > i {
                        assert(self.spec_entries()[i as int].id != self.spec_entries()[c].id);
                    }
                }
                return Some(&self.entries[i]);
            }
            i = i + 1;
        }
        None
    }
}

/// A raw tileset that will validate: its pixel data is embedded, holds
/// exactly one image per tile, fits the platform, and every indexed pixel
/// resolves through the palette.
pub open spec fn spec_tileset_valid(rt: &RawTileset, palette: Option<&ColorPalette>) -> bool {
    &&& rt.pixels is Some
    &&& rt.pixels->0.spec_len() == rt.tile_count as int * (rt.tile_size.spec_width() as int) * (
    rt.tile_size.spec_height() as int)
    &&& rt.tile_count as int * (rt.tile_size.spec_width() as int) * (
    rt.tile_size.spec_height() as int) * 4 <= usize::MAX
    &&& match rt.pixels->0 {
        RawPixels::Indexed(v) => palette is Some && forall|i: int|
            #![auto]
            0 <= i < v@.len() ==> palette->0.spec_has(v@[i] as u32),
        _ => true,
    }
}

/// The validated tileset keeps every descriptive field of the raw record,
/// and its pixel plane keeps the pixel count.
pub open spec fn spec_tileset_converted(rt: RawTileset, t: Tileset) -> bool {
    &&& t.id == rt.id
    &&& t.empty_tile_is_id_zero == rt.empty_tile_is_id_zero
    &&& t.tile_count == rt.tile_count
    &&& t.tile_size == rt.tile_size
    &&& t.base_index == rt.base_index
    &&& t.name == rt.name
    &&& t.external_file == rt.external_file
    &&& t.pixels is Some
    &&& t.pixels->0.spec_len() == rt.pixels->0.spec_len()
}

/// The index of the last tileset among the first `n` of `s` that carries
/// the given id, when one does (a later tileset replaces an earlier one).
pub open spec fn spec_ts_last(s: Seq<RawTileset>, n: int, id: u32) -> Option<int>
    decreases n,
{
    if n <= 0 {
        None
    } else if s[n - 1].id == id {
        Some(n - 1)
    } else {
        spec_ts_last(s, n - 1, id)
    }
}

/// Validate a parsed tileset table. Succeeds exactly when every tileset
/// embeds valid pixel data (an external-file tileset is
/// `UnsupportedFeature`); the table then holds, for each id, exactly the
/// last parsed tileset with that id, with all descriptive fields preserved.
#[verifier::rlimit(100)]
pub fn validate_tilesets(
    raw: Vec<RawTileset>,
    palette: Option<&ColorPalette>,
    transparent_color_index: Option<u8>,
) -> (r: Result<TilesetsById, AsepriteParseError>)
    requires
        match palette {
            Some(p) => p.wf(),
            None => true,
        },
    ensures
        r is Ok <==> forall|i: int|
            #![trigger raw@[i]]
            0 <= i < raw@.len() ==> spec_tileset_valid(&raw@[i], palette),
        match r {
            Ok(t) => {
                &&& t.wf()
                &&& forall|id: u32|
                    #![trigger t.spec_get(id)]
                    match spec_ts_last(raw@, raw@.len() as int, id) {
                        Some(j) => t.spec_get(id) matches Some(e) && spec_tileset_converted(
                            raw@[j],
                            e,
                        ),
                        None => t.spec_get(id) is None,
                    }
            },
            Err(e) => e is InvalidInput || e is UnsupportedFeature,
        },
{
    let ghost rawseq = raw@;
    let n = raw.len();
    let mut result = TilesetsById::new();
    let mut input = raw;
    let mut i: usize = 0;
    while i < n
        invariant
            n == rawseq.len(),
            rawseq == raw@,
            input@ =~= rawseq.subrange(i as int, n as int),
            i <= n,
            result.wf(),
            match palette {
                Some(p) => p.wf(),
                None => true,
            },
            forall|i2: int|
                #![trigger rawseq[i2]]
                0 <= i2 < i ==> spec_tileset_valid(&rawseq[i2], palette),
            forall|id: u32|
                #![trigger result.spec_get(id)]
                match spec_ts_last(rawseq, i as int, id) {
                    Some(j) => result.spec_get(id) matches Some(e) && spec_tileset_converted(
                        rawseq[j],
                        e,
                    ),
                    None => result.spec_get(id) is None,
                },
        decreases n - i,
    {
        let ts = input.remove(0);
        proof {
            assert(ts == rawseq[i as int]);
            assert(input@ =~= rawseq.subrange(i as int + 1, n as int));
        }
        let ghost gts = ts;
        let RawTileset {
            id,
            empty_tile_is_id_zero,
            tile_count,
            tile_size,
            base_index,
            name,
            external_file,
            pixels,
        } = ts;
        let raw_pixels = match pixels {
            Some(p) => p,
            None => {
                proof {
                    assert(!spec_tileset_valid(&rawseq[i as int], palette));
                }
                return Err(
                    AsepriteParseError::UnsupportedFeature(
                        "tileset without embedded pixels (external-file tilesets are not supported)".to_owned(),
                    ),
                );
            },
        };
        let ghost gpx = raw_pixels;
        let validated = match raw_pixels.validate(palette, transparent_color_index, false) {
            Ok(p) => p,
            Err(e) => {
                proof {
                    crate::cel::lemma_resolution_failure(
                        gpx,
                        palette,
                        transparent_color_index,
                        false,
                    );
                    assert(!spec_tileset_valid(&rawseq[i as int], palette));
                }
                return Err(e);
            },
        };
        proof {
            assert(tile_count as int * (tile_size.spec_width() as int) <= 0xffffffff * 0xffff)
                by (nonlinear_arith)
                requires
                    tile_count <= 0xffffffffu32 && tile_size.spec_width() <= 0xffff,
            ;
            assert(tile_count as int * (tile_size.spec_width() as int) * (
            tile_size.spec_height() as int) <= 0xffffffff * 0xffff * 0xffff) by (nonlinear_arith)
                requires
                    tile_count as int * (tile_size.spec_width() as int) <= 0xffffffff * 0xffff
                        && tile_size.spec_height() <= 0xffff,
            ;
        }
        let expected: u128 = (tile_count as u128) * (tile_size.width() as u128) * (
        tile_size.height() as u128);
        if expected * 4 > usize::MAX as u128 {
            proof {
                assert(!spec_tileset_valid(&rawseq[i as int], palette));
            }
            return Err(AsepriteParseError::InvalidInput("tileset too large".to_owned()));
        }
        if (validated.len() as u128) != expected {
            proof {
                assert(!spec_tileset_valid(&rawseq[i as int], palette));
            }
            return Err(
                AsepriteParseError::InvalidInput(
                    "tileset pixel data does not match its tile count".to_owned(),
                ),
            );
        }
        proof {
            crate::cel::lemma_resolution_success(gpx, palette, transparent_color_index, false);
            assert(spec_tileset_valid(&rawseq[i as int], palette));
        }
        let ts2 = Tileset {
            id,
            empty_tile_is_id_zero,
            tile_count,
            tile_size,
            base_index,
            name,
            external_file,
            pixels: Some(validated),
        };
        proof {
            assert(spec_tileset_converted(gts, ts2));
        }
        let ghost prev = result;
        result.add(ts2);
        proof {
            assert forall|x: u32| #![trigger result.spec_get(x)] match spec_ts_last(
                rawseq,
                i as int + 1,
                x,
            ) {
                Some(j) => result.spec_get(x) matches Some(e) && spec_tileset_converted(
                    rawseq[j],
                    e,
                ),
                None => result.spec_get(x) is None,
            } by {
                if x == gts.id {
                    assert(spec_ts_last(rawseq, i as int + 1, x) == Some(i as int));
                    assert(result.spec_get(x) == Some(ts2));
                } else {
                    assert(spec_ts_last(rawseq, i as int + 1, x) == spec_ts_last(
                        rawseq,
                        i as int,
                        x,
                    ));
                    assert(result.spec_get(x) == prev.spec_get(x));
                }
            }
        }
        i = i + 1;
    }
    Ok(result)
}

} // verus!
