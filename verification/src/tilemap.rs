//! Tilemap data: a grid of tile references decoded from a compressed tile
//! plane against a per-document bitmask header.

use crate::error::AsepriteParseError;
use crate::reader::AseReader;
use crate::tile::{Tile, Tiles};
use vstd::prelude::*;

verus! {

/// The bitmask header that fixes which bits of a packed tile value carry the
/// id and each transform flag.
#[derive(Debug, Clone, Copy, PartialEq, Eq, Structural)]
pub struct TileBitmaskHeader {
    /// Mask of the tile-id bits.
    pub tile_id: u32,
    /// Mask of the horizontal-flip bit.
    pub x_flip: u32,
    /// Mask of the vertical-flip bit.
    pub y_flip: u32,
    /// Mask of the quarter-turn rotation bit.
    pub rotate_90cw: u32,
}

impl TileBitmaskHeader {
    /// Decode the four mask dwords. Succeeds exactly when sixteen bytes
    /// remain.
    pub fn parse(reader: &mut AseReader<'_>) -> (r: Result<TileBitmaskHeader, AsepriteParseError>)
        requires
            old(reader).wf(),
        ensures
            final(reader).wf(),
            final(reader).bytes() == old(reader).bytes(),
            r is Ok <==> old(reader).spec_remaining() >= 16,
            match r {
                Ok(h) => {
                    let s = old(reader).bytes();
                    let p = old(reader).position();
                    &&& h.tile_id == crate::reader::le32(s, p)
                    &&& h.x_flip == crate::reader::le32(s, p + 4)
                    &&& h.y_flip == crate::reader::le32(s, p + 8)
                    &&& h.rotate_90cw == crate::reader::le32(s, p + 12)
                    &&& final(reader).position() == p + 16
                },
                Err(e) => e is IoError,
            },
    {
        let tile_id = match reader.dword() {
            Ok(v) => v,
            Err(e) => { return Err(e) },
        };
        let x_flip = match reader.dword() {
            Ok(v) => v,
            Err(e) => { return Err(e) },
        };
        let y_flip = match reader.dword() {
            Ok(v) => v,
            Err(e) => { return Err(e) },
        };
        let rotate_90cw = match reader.dword() {
            Ok(v) => v,
            Err(e) => { return Err(e) },
        };
        Ok(TileBitmaskHeader { tile_id, x_flip, y_flip, rotate_90cw })
    }
}

/// The decoded tile grid of one tilemap cel.
#[derive(Debug)]
pub struct TilemapData {
    width: u16,
    height: u16,
    tiles: Tiles,
    bits_per_tile: u16,
    bitmask_header: TileBitmaskHeader,
}

impl TilemapData {
    /// Grid width in tiles.
    pub closed spec fn spec_width(&self) -> u16 {
        self.width
    }

    /// Grid height in tiles.
    pub closed spec fn spec_height(&self) -> u16 {
        self.height
    }

    /// The tiles, in row-major order.
    pub closed spec fn spec_tiles(&self) -> Seq<Tile> {
        self.tiles.0@
    }

    /// The grid holds exactly width * height tiles.
    pub open spec fn wf(&self) -> bool {
        self.spec_tiles().len() == self.spec_width() as int * self.spec_height() as int
    }

    /// Whether the grid holds exactly width * height tiles.
    pub fn check_wf(&self) -> (r: bool)
        ensures
            r == self.wf(),
    {
        proof {
            assert(self.spec_width() as int * self.spec_height() as int <= 0xffff * 0xffff)
                by (nonlinear_arith)
                requires
                    self.spec_width() <= 0xffff && self.spec_height() <= 0xffff,
            ;
        }
        self.tiles.0.len() == (self.width as usize) * (self.height as usize)
    }

    /// Width in number of tiles.
    pub fn width(&self) -> (r: u16)
        ensures
            r == self.spec_width(),
    {
        self.width
    }

    /// Height in number of tiles.
    pub fn height(&self) -> (r: u16)
        ensures
            r == self.spec_height(),
    {
        self.height
    }

    /// The tile at grid position (x, y); `None` outside the grid.
    pub fn tile(&self, x: u16, y: u16) -> (r: Option<&Tile>)
        requires
            self.wf(),
        ensures
            match r {
                Some(t) => x < self.spec_width() && y < self.spec_height() && *t == self.spec_tiles()[
                    y as int * self.spec_width() as int + x as int
                ],
                None => x >= self.spec_width() || y >= self.spec_height(),
            },
    {
        if x >= self.width || y >= self.height {
            return None;
        }
        proof {
            assert(y as int * self.spec_width() as int + (x as int) < self.spec_width() as int
                * self.spec_height() as int && y as int * self.spec_width() as int + (x as int)
                < 0x100000000) by (nonlinear_arith)
                requires
                    x < self.spec_width() && y < self.spec_height() && self.spec_width() <= 0xffff
                        && self.spec_height() <= 0xffff,
            ;
        }
        let index: usize = (y as usize) * (self.width as usize) + (x as usize);
        Some(&self.tiles.0[index])
    }

    /// Decode a tilemap cel payload: grid size, bits per tile (only 32 is
    /// supported), the bitmask header, 10 reserved bytes, and the compressed
    /// tile plane. Succeeds exactly when all of that is present (with 32
    /// bits per tile, a grid that fits the platform, and a tile plane that
    /// inflates to exactly width * height dwords); the grid size, the masks
    /// and every decoded tile are tied to the payload bytes.
    pub fn parse_chunk(reader: &mut AseReader<'_>) -> (r: Result<TilemapData, AsepriteParseError>)
        requires
            old(reader).wf(),
        ensures
            final(reader).wf(),
            ({
                let b = old(reader).bytes();
                let p = old(reader).position();
                let w = crate::reader::le16(b, p) as int;
                let h = crate::reader::le16(b, p + 2) as int;
                let rest = b.subrange(p + 32, b.len() as int);
                &&& (r is Ok <==> old(reader).spec_remaining() >= 32 && crate::reader::le16(
                    b,
                    p + 4,
                ) == 32 && w * h * 4 <= usize::MAX && (crate::reader::zlib_inflate(rest)
                    matches Some(out) && out.len() == 4 * (w * h)))
                &&& match r {
                    Ok(t) => {
                        let hd = TileBitmaskHeader {
                            tile_id: crate::reader::le32(b, p + 6),
                            x_flip: crate::reader::le32(b, p + 10),
                            y_flip: crate::reader::le32(b, p + 14),
                            rotate_90cw: crate::reader::le32(b, p + 18),
                        };
                        let out = crate::reader::zlib_inflate(rest)->0;
                        &&& t.wf()
                        &&& t.spec_width() as int == w
                        &&& t.spec_height() as int == h
                        &&& forall|j: int|
                            0 <= j < w * h ==> #[trigger] t.spec_tiles()[j]
                                == crate::tile::spec_tile_of(crate::reader::le32(out, 4 * j), hd)
                    },
                    Err(e) => {
                        &&& e is InvalidInput || e is IoError || e is UnsupportedFeature
                        &&& old(reader).spec_remaining() >= 6 && crate::reader::le16(b, p + 4)
                            != 32 ==> e is UnsupportedFeature
                    },
                }
            }),
    {
        let width = match reader.word() {
            Ok(v) => v,
            Err(e) => { return Err(e) },
        };
        let height = match reader.word() {
            Ok(v) => v,
            Err(e) => { return Err(e) },
        };
        let bits_per_tile = match reader.word() {
            Ok(v) => v,
            Err(e) => { return Err(e) },
        };
        if bits_per_tile != 32 {
            return Err(
                AsepriteParseError::UnsupportedFeature(
                    "only 32 bits per tile are supported".to_owned(),
                ),
            );
        }
        let bitmask_header = match TileBitmaskHeader::parse(reader) {
            Ok(v) => v,
            Err(e) => { return Err(e) },
        };
        match reader.skip_reserved(10) {
            Ok(_) => (),
            Err(e) => { return Err(e) },
        }
        proof {
            assert(width as int * height as int <= 0xffff * 0xffff) by (nonlinear_arith)
                requires
                    width <= 0xffff && height <= 0xffff,
            ;
        }
        if (width as u64) * (height as u64) * 4 > usize::MAX as u64 {
            return Err(
                AsepriteParseError::InvalidInput("tilemap too large for this platform".to_owned()),
            );
        }
        let expected_tile_count: usize = (width as usize) * (height as usize);
        let tiles = match Tiles::unzip(reader, expected_tile_count, &bitmask_header) {
            Ok(v) => v,
            Err(e) => { return Err(e) },
        };
        Ok(TilemapData { width, height, tiles, bits_per_tile, bitmask_header })
    }
}

} // verus!
