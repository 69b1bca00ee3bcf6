//! Reader and compositor for a binary sprite-editor file format.
//!
//! The library decodes a chunk-based binary document (header, frames, tagged
//! chunks) into an immutable in-memory model, and renders any frame of that
//! model to a flat RGBA bitmap, reproducing the reference application's
//! exact per-pixel blend arithmetic — including its fixed-point byte
//! formulas and its double-precision soft-light and HSL modes, which are
//! emulated here bit for bit on integers.

pub mod blend;
pub mod cel;
pub mod color_profile;
pub mod error;
pub mod external_file;
pub mod file;
pub mod fp;
pub mod hsl;
pub mod layer;
pub mod palette;
pub mod parse;
pub mod pixel;
pub mod reader;
pub mod rgba16;
pub mod slice;
pub mod tags;
pub mod tile;
pub mod tilemap;
pub mod tileset;
pub mod user_data;
pub mod util;

pub use blend::Rgba8;
pub use error::AsepriteParseError;
pub use external_file::{ExternalFile, ExternalFileId, ExternalFilesById};
pub use file::{AsepriteFile, Bitmap, Cel, Frame, Layer, LayersIter, PixelFormat, Tilemap};
pub use layer::{BlendMode, LayerFlags, LayerType};
pub use palette::{ColorPalette, ColorPaletteEntry};
pub use parse::read_aseprite;
pub use pixel::{Grayscale, Pixels};
pub use slice::{Slice, Slice9, SliceKey};
pub use tags::{AnimationDirection, Tag};
pub use tilemap::TilemapData;
pub use tileset::{ExternalTilesetReference, TileSize, Tileset, TilesetImageError, TilesetsById};
pub use user_data::UserData;
