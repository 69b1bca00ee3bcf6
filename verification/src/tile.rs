//! Tiles: packed per-tile bitfields carrying a tile id plus transform flags.

use crate::error::AsepriteParseError;
use crate::reader::AseReader;
use crate::tilemap::TileBitmaskHeader;
use vstd::prelude::*;

verus! {

/// The index of a tile within its tileset.
#[derive(Debug, Clone, Copy, PartialEq, Eq, Structural)]
pub struct TileId(pub u32);

/// One tile reference in a tilemap: a tile id and three transform flags.
///
/// The transform flags are decoded but not applied while compositing, which
/// matches the reference application's current behavior.
#[derive(Debug, Clone)]
pub struct Tile {
    /// Which tile of the tileset this cell shows.
    pub id: TileId,
    /// Horizontal flip flag.
    pub flip_x: bool,
    /// Vertical flip flag.
    pub flip_y: bool,
    /// Quarter-turn clockwise rotation flag.
    pub rotate_90cw: bool,
}

/// How a packed 32-bit tile value decodes against the document's bitmask
/// header: the id comes from the id mask, each flag from its own mask.
pub open spec fn spec_tile_of(bits: u32, header: TileBitmaskHeader) -> Tile {
    Tile {
        id: TileId(bits & header.tile_id),
        flip_x: bits & header.x_flip != 0,
        flip_y: bits & header.y_flip != 0,
        rotate_90cw: bits & header.rotate_90cw != 0,
    }
}

/// The tile standing for an empty tilemap cell.
pub open spec fn spec_empty_tile() -> Tile {
    Tile { id: TileId(0), flip_x: false, flip_y: false, rotate_90cw: false }
}

/// True when a nonzero bit survived the mask.
pub fn as_bool(bitwise_and: u32) -> (r: bool)
    ensures
        r == (bitwise_and != 0),
{
    bitwise_and != 0
}

impl Tile {
    /// The id of the tile: the index into the owning tileset.
    pub fn id(&self) -> (r: u32)
        ensures
            r == self.id.0,
    {
        self.id.0
    }

    /// The tile standing for an empty tilemap cell.
    pub fn empty() -> (r: Tile)
        ensures
            r == spec_empty_tile(),
    {
        Tile { id: TileId(0), flip_x: false, flip_y: false, rotate_90cw: false }
    }

    /// Decode one packed tile from its four little-endian bytes.
    pub fn new(chunk: &[u8], header: &TileBitmaskHeader) -> (r: Result<Tile, AsepriteParseError>)
        ensures
            match r {
                Ok(t) => chunk@.len() >= 4 && t == spec_tile_of(
                    crate::reader::le32(chunk@, 0),
                    *header,
                ),
                Err(e) => chunk@.len() < 4 && e is IoError,
            },
    {
        let mut reader = AseReader::new(chunk);
        match reader.dword() {
            Ok(bits) => Ok(Tile::parse(bits, header)),
            Err(e) => Err(e),
        }
    }

    /// Decode a packed 32-bit tile value against the bitmask header.
    pub fn parse(bits: u32, header: &TileBitmaskHeader) -> (r: Tile)
        ensures
            r == spec_tile_of(bits, *header),
    {
        Tile {
            id: TileId(bits & header.tile_id),
            flip_x: as_bool(bits & header.x_flip),
            flip_y: as_bool(bits & header.y_flip),
            rotate_90cw: as_bool(bits & header.rotate_90cw),
        }
    }
}

/// The tiles of one tilemap cel, in row-major order.
#[derive(Debug)]
pub struct Tiles(pub Vec<Tile>);

impl Tiles {
    /// Inflate a compressed tile plane of exactly `expected_tile_count`
    /// packed 32-bit tiles and decode each against the header. Succeeds
    /// exactly when the remaining bytes inflate to that many tiles, and
    /// yields each tile decoded from its little-endian dword.
    pub fn unzip(
        reader: &mut AseReader<'_>,
        expected_tile_count: usize,
        header: &TileBitmaskHeader,
    ) -> (r: Result<Tiles, AsepriteParseError>)
        requires
            old(reader).wf(),
            expected_tile_count * 4 <= usize::MAX,
        ensures
            final(reader).wf(),
            ({
                let rest = old(reader).bytes().subrange(
                    old(reader).position(),
                    old(reader).bytes().len() as int,
                );
                &&& (r is Ok <==> (crate::reader::zlib_inflate(rest) matches Some(out)
                    && out.len() == 4 * expected_tile_count))
                &&& match r {
                    Ok(t) => {
                        let out = crate::reader::zlib_inflate(rest)->0;
                        &&& t.0@.len() == expected_tile_count
                        &&& forall|j: int|
                            0 <= j < expected_tile_count ==> #[trigger] t.0@[j] == spec_tile_of(
                                crate::reader::le32(out, 4 * j),
                                *header,
                            )
                    },
                    Err(e) => e is InvalidInput,
                }
            }),
    {
        let ghost rest = old(reader).bytes().subrange(
            old(reader).position(),
            old(reader).bytes().len() as int,
        );
        let size: usize = 4 * expected_tile_count;
        let bytes = match reader.unzip(size) {
            Ok(v) => v,
            Err(e) => { return Err(e) },
        };
        proof {
            assert(bytes@ == crate::reader::zlib_inflate(rest)->0);
        }
        proof {
            crate::pixel::lemma_exact_mul_div(expected_tile_count as int, 4);
        }
        let n = expected_tile_count;
        let mut out: Vec<Tile> = Vec::new();
        let mut i: usize = 0;
        while i < n
            invariant
                i <= n,
                4 * n == bytes@.len(),
                bytes@.len() <= usize::MAX,
                out@.len() == i,
                forall|j: int|
                    0 <= j < i ==> out@[j] == spec_tile_of(
                        crate::reader::le32(bytes@, 4 * j),
                        *header,
                    ),
            decreases n - i,
        {
            let b0 = bytes[4 * i];
            let b1 = bytes[4 * i + 1];
            let b2 = bytes[4 * i + 2];
            let b3 = bytes[4 * i + 3];
            let bits: u32 = (b0 as u32) + (b1 as u32) * 0x100 + (b2 as u32) * 0x10000 + (b3 as u32)
                * 0x1000000;
            out.push(Tile::parse(bits, header));
            i = i + 1;
        }
        Ok(Tiles(out))
    }
}

} // verus!
