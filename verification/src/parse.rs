//! The top-level parser: file header, frame headers, the per-frame chunk
//! dispatch loop with its retroactive user-data context, and the final
//! validation passes that build the document.

use crate::cel::{CelId, RawCelsData};
use crate::error::AsepriteParseError;
use crate::external_file::{ExternalFile, ExternalFilesById};
use crate::file::{AsepriteFile, PixelFormat};
use crate::layer::{LayerData, LayersData};
use crate::palette::ColorPalette;
use crate::reader::AseReader;
use crate::slice::Slice;
use crate::tags::Tag;
use crate::tileset::RawTileset;
use crate::user_data::UserData;
use vstd::prelude::*;

verus! {

/// The entity a later user-data chunk attaches to: whatever attachable
/// chunk came last.
#[derive(Debug, Clone, Copy)]
pub enum UserDataContext {
    /// The cel with the given coordinates.
    CelId(CelId),
    /// The layer with the given index.
    LayerIndex(u32),
    /// A legacy palette chunk: user data becomes sprite-level.
    OldPalette,
    /// The tag with the given index.
    TagIndex(u16),
    /// The slice with the given index.
    SliceIndex(u32),
}

/// The chunk kinds this parser understands.
#[derive(Debug, Clone, Copy, PartialEq, Eq, Structural)]
pub enum ChunkType {
    /// Legacy 8-bit palette chunk.
    OldPalette04,
    /// Legacy 6-bit palette chunk.
    OldPalette11,
    /// Current palette chunk.
    Palette,
    /// Layer record.
    Layer,
    /// Cel record.
    Cel,
    /// Extra cel data; ignored.
    CelExtra,
    /// Color profile.
    ColorProfile,
    /// Deprecated mask chunk; ignored.
    Mask,
    /// Path chunk; ignored.
    Path,
    /// Tag list.
    Tags,
    /// User data for the preceding attachable chunk.
    UserData,
    /// Slice record.
    Slice,
    /// External file references.
    ExternalFiles,
    /// Tileset record.
    Tileset,
}

/// The chunk kind a 16-bit code decodes to; `None` for the undocumented
/// codes.
pub open spec fn spec_chunk_type_of(chunk_type: u16) -> Option<ChunkType> {
    if chunk_type == 0x0004 {
        Some(ChunkType::OldPalette04)
    } else if chunk_type == 0x0011 {
        Some(ChunkType::OldPalette11)
    } else if chunk_type == 0x2004 {
        Some(ChunkType::Layer)
    } else if chunk_type == 0x2005 {
        Some(ChunkType::Cel)
    } else if chunk_type == 0x2006 {
        Some(ChunkType::CelExtra)
    } else if chunk_type == 0x2007 {
        Some(ChunkType::ColorProfile)
    } else if chunk_type == 0x2008 {
        Some(ChunkType::ExternalFiles)
    } else if chunk_type == 0x2016 {
        Some(ChunkType::Mask)
    } else if chunk_type == 0x2017 {
        Some(ChunkType::Path)
    } else if chunk_type == 0x2018 {
        Some(ChunkType::Tags)
    } else if chunk_type == 0x2019 {
        Some(ChunkType::Palette)
    } else if chunk_type == 0x2020 {
        Some(ChunkType::UserData)
    } else if chunk_type == 0x2022 {
        Some(ChunkType::Slice)
    } else if chunk_type == 0x2023 {
        Some(ChunkType::Tileset)
    } else {
        None
    }
}

/// Decode a chunk type code. Succeeds on exactly the fourteen documented
/// codes; every other code is `UnsupportedFeature`.
pub fn parse_chunk_type(chunk_type: u16) -> (r: Result<ChunkType, AsepriteParseError>)
    ensures
        r is Ok <==> spec_chunk_type_of(chunk_type) is Some,
        match r {
            Ok(t) => spec_chunk_type_of(chunk_type) == Some(t),
            Err(e) => e is UnsupportedFeature,
        },
{
    if chunk_type == 0x0004 {
        Ok(ChunkType::OldPalette04)
    } else if chunk_type == 0x0011 {
        Ok(ChunkType::OldPalette11)
    } else if chunk_type == 0x2004 {
        Ok(ChunkType::Layer)
    } else if chunk_type == 0x2005 {
        Ok(ChunkType::Cel)
    } else if chunk_type == 0x2006 {
        Ok(ChunkType::CelExtra)
    } else if chunk_type == 0x2007 {
        Ok(ChunkType::ColorProfile)
    } else if chunk_type == 0x2008 {
        Ok(ChunkType::ExternalFiles)
    } else if chunk_type == 0x2016 {
        Ok(ChunkType::Mask)
    } else if chunk_type == 0x2017 {
        Ok(ChunkType::Path)
    } else if chunk_type == 0x2018 {
        Ok(ChunkType::Tags)
    } else if chunk_type == 0x2019 {
        Ok(ChunkType::Palette)
    } else if chunk_type == 0x2020 {
        Ok(ChunkType::UserData)
    } else if chunk_type == 0x2022 {
        Ok(ChunkType::Slice)
    } else if chunk_type == 0x2023 {
        Ok(ChunkType::Tileset)
    } else {
        Err(
            AsepriteParseError::UnsupportedFeature(
                "invalid or unsupported chunk type".to_owned(),
            ),
        )
    }
}

/// A chunk's declared size must cover its own 6-byte header and must not
/// exceed what is left of the frame.
pub fn check_chunk_bytes(chunk_size: u32, bytes_available: i64) -> (r: Result<
    (),
    AsepriteParseError,
>)
    ensures
        match r {
            Ok(_) => 6 <= chunk_size as int <= bytes_available as int,
            Err(e) => e is InvalidInput && (chunk_size < 6 || chunk_size as int
                > bytes_available as int),
        },
{
    if chunk_size < 6 {
        return Err(AsepriteParseError::InvalidInput("chunk size is too small".to_owned()));
    }
    if (chunk_size as i64) > bytes_available {
        return Err(
            AsepriteParseError::InvalidInput(
                "chunk size exceeds the bytes available in the frame".to_owned(),
            ),
        );
    }
    Ok(())
}

/// Map a color depth to a pixel format: 8 is indexed, 16 grayscale, 32
/// truecolor; anything else is `InvalidInput`.
pub fn parse_pixel_format(color_depth: u16, transparent_color_index: u8) -> (r: Result<
    PixelFormat,
    AsepriteParseError,
>)
    ensures
        match r {
            Ok(f) => (color_depth == 8 ==> f == PixelFormat::Indexed { transparent_color_index })
                && (color_depth == 16 ==> f is Grayscale) && (color_depth == 32 ==> f is Rgba) && (
            color_depth == 8 || color_depth == 16 || color_depth == 32),
            Err(e) => e is InvalidInput && color_depth != 8 && color_depth != 16 && color_depth
                != 32,
        },
{
    if color_depth == 8 {
        Ok(PixelFormat::Indexed { transparent_color_index })
    } else if color_depth == 16 {
        Ok(PixelFormat::Grayscale)
    } else if color_depth == 32 {
        Ok(PixelFormat::Rgba)
    } else {
        Err(AsepriteParseError::InvalidInput("unknown color depth".to_owned()))
    }
}

/// Layer records while parsing: collected flat during frame 0, then frozen
/// into a `LayersData` with its computed parent relation.
pub enum LayerParseInfo {
    /// Layer records still being collected.
    InProgress(Vec<LayerData>),
    /// The finished, validated layer list.
    Finished(LayersData),
}

impl LayerParseInfo {
    /// A finished list satisfies the layer invariants and fits in 16 bits.
    pub open spec fn wf(&self) -> bool {
        match self {
            LayerParseInfo::InProgress(_) => true,
            LayerParseInfo::Finished(l) => l.wf() && l.layers@.len() < 0x10000,
        }
    }
}

fn set_vec_layer_user_data(v: &mut Vec<LayerData>, index: usize, user_data: UserData) -> (r:
    Result<(), AsepriteParseError>)
    ensures
        r is Ok <==> index < old(v)@.len(),
        final(v)@.len() == old(v)@.len(),
        match r {
            Ok(_) => {
                &&& forall|i: int|
                    0 <= i < old(v)@.len() && i != index ==> final(v)@[i] == old(v)@[i]
                &&& final(v)@[index as int].user_data == Some(user_data)
                &&& final(v)@[index as int].flags == old(v)@[index as int].flags
                &&& final(v)@[index as int].name == old(v)@[index as int].name
                &&& final(v)@[index as int].blend_mode == old(v)@[index as int].blend_mode
                &&& final(v)@[index as int].opacity == old(v)@[index as int].opacity
                &&& final(v)@[index as int].layer_type == old(v)@[index as int].layer_type
                &&& final(v)@[index as int].child_level == old(v)@[index as int].child_level
            },
            Err(e) => e is InternalError && final(v)@ == old(v)@,
        },
{
    if index >= v.len() {
        return Err(
            AsepriteParseError::InternalError("invalid layer index in chunk context".to_owned()),
        );
    }
    let item = v.remove(index);
    let LayerData { flags, name, blend_mode, opacity, layer_type, user_data: _, child_level } =
        item;
    v.insert(
        index,
        LayerData {
            flags,
            name,
            blend_mode,
            opacity,
            layer_type,
            user_data: Some(user_data),
            child_level,
        },
    );
    Ok(())
}

fn set_tag_user_data(
    tags: &mut Option<Vec<Tag>>,
    index: u16,
    user_data: UserData,
    context: &mut Option<UserDataContext>,
) -> (r: Result<(), AsepriteParseError>)
    ensures
        r is Ok <==> (*old(tags) matches Some(v) && (index as int) < v@.len()),
        match r {
            Ok(_) => {
                let oldv = old(tags)->0@;
                let newv = final(tags)->0@;
                &&& *final(tags) is Some
                &&& newv.len() == oldv.len()
                &&& forall|i: int| 0 <= i < oldv.len() && i != index ==> newv[i] == oldv[i]
                &&& newv[index as int].spec_user_data() is Some
                &&& newv[index as int].spec_name() == oldv[index as int].spec_name()
                &&& newv[index as int].spec_from_frame() == oldv[index as int].spec_from_frame()
                &&& newv[index as int].spec_to_frame() == oldv[index as int].spec_to_frame()
                &&& newv[index as int].spec_repeat() == oldv[index as int].spec_repeat()
                &&& newv[index as int].spec_animation_direction() == oldv[
                    index as int
                ].spec_animation_direction()
                &&& (index < 0xffff ==> *final(context) == Some(
                    UserDataContext::TagIndex((index + 1) as u16),
                ))
            },
            Err(e) => e is InternalError && *final(tags) == *old(tags) && *final(context) == *old(
                context,
            ),
        },
{
    match tags {
        Some(v) => {
            if (index as usize) >= v.len() {
                return Err(
                    AsepriteParseError::InternalError(
                        "invalid tag index in chunk context".to_owned(),
                    ),
                );
            }
            let mut item = v.remove(index as usize);
            item.set_user_data(user_data);
            v.insert(index as usize, item);
            let next: u16 = if index == 0xffff {
                index
            } else {
                index + 1
            };
            *context = Some(UserDataContext::TagIndex(next));
            Ok(())
        },
        None => Err(
            AsepriteParseError::InternalError(
                "no tags found when resolving the chunk context".to_owned(),
            ),
        ),
    }
}

fn set_slice_user_data(v: &mut Vec<Slice>, index: u32, user_data: UserData) -> (r: Result<
    (),
    AsepriteParseError,
>)
    ensures
        r is Ok <==> (index as int) < old(v)@.len(),
        final(v)@.len() == old(v)@.len(),
        match r {
            Ok(_) => {
                &&& forall|i: int|
                    0 <= i < old(v)@.len() && i != index ==> final(v)@[i] == old(v)@[i]
                &&& final(v)@[index as int].user_data == Some(user_data)
                &&& final(v)@[index as int].name == old(v)@[index as int].name
                &&& final(v)@[index as int].keys == old(v)@[index as int].keys
            },
            Err(e) => e is InternalError && final(v)@ == old(v)@,
        },
{
    if (index as usize) >= v.len() {
        return Err(
            AsepriteParseError::InternalError("invalid slice index in chunk context".to_owned()),
        );
    }
    let item = v.remove(index as usize);
    let Slice { name, keys, user_data: _ } = item;
    v.insert(index as usize, Slice { name, keys, user_data: Some(user_data) });
    Ok(())
}

/// Tag lists that agree in everything but their user data.
pub open spec fn spec_same_tags(a: Option<Vec<Tag>>, b: Option<Vec<Tag>>) -> bool {
    &&& (a is Some <==> b is Some)
    &&& (a is Some ==> {
        let av = a->0@;
        let bv = b->0@;
        &&& av.len() == bv.len()
        &&& forall|i: int|
            #![auto]
            0 <= i < av.len() ==> av[i].spec_name() == bv[i].spec_name()
                && av[i].spec_from_frame() == bv[i].spec_from_frame() && av[i].spec_to_frame()
                == bv[i].spec_to_frame() && av[i].spec_repeat() == bv[i].spec_repeat()
                && av[i].spec_animation_direction() == bv[i].spec_animation_direction()
    })
}

/// Parse one frame: its header (erring with `InvalidInput` on a bad frame
/// magic word), then its chunks, dispatching each by type and threading the
/// user-data context. On success the frame's duration word lands in
/// `frame_times[frame_id]`. Tags chunks are honored only on frame 0: on
/// later frames a parsed tag list is dropped, so the tag list's structure
/// (everything but user data) is preserved there.
#[verifier::rlimit(60)]
fn parse_frame(
    reader: &mut AseReader<'_>,
    frame_id: u16,
    num_frames: u16,
    pixel_format: PixelFormat,
    palette: &mut Option<ColorPalette>,
    layers: &mut LayerParseInfo,
    framedata: &mut RawCelsData,
    frame_times: &mut Vec<u16>,
    tags: &mut Option<Vec<Tag>>,
    external_files: &mut ExternalFilesById,
    tilesets: &mut Vec<RawTileset>,
    sprite_user_data: &mut Option<UserData>,
    context: &mut Option<UserDataContext>,
    slices: &mut Vec<Slice>,
) -> (r: Result<(), AsepriteParseError>)
    requires
        old(reader).wf(),
        frame_id < num_frames,
        match *old(palette) {
            Some(p) => p.wf(),
            None => true,
        },
        (*old(layers)).wf(),
        old(framedata).data@.len() == num_frames,
        old(frame_times)@.len() == num_frames,
        old(external_files).wf(),
    ensures
        final(reader).wf(),
        match *final(palette) {
            Some(p) => p.wf(),
            None => true,
        },
        (*final(layers)).wf(),
        final(framedata).data@.len() == num_frames,
        final(frame_times)@.len() == num_frames,
        final(external_files).wf(),
        old(reader).spec_remaining() >= 6 && crate::reader::le16(
            old(reader).bytes(),
            old(reader).position() + 4,
        ) != 0xF1FA ==> r is Err && r->Err_0 is InvalidInput,
        r is Ok ==> final(frame_times)@ == old(frame_times)@.update(
            frame_id as int,
            crate::reader::le16(old(reader).bytes(), old(reader).position() + 8),
        ),
        frame_id != 0 ==> spec_same_tags(*old(tags), *final(tags)),
{
    let num_bytes = match reader.dword() {
        Ok(v) => v,
        Err(e) => { return Err(e) },
    };
    let magic_number = match reader.word() {
        Ok(v) => v,
        Err(e) => { return Err(e) },
    };
    if magic_number != 0xF1FA {
        return Err(AsepriteParseError::InvalidInput("invalid magic number for frame".to_owned()));
    }
    let old_num_chunks = match reader.word() {
        Ok(v) => v,
        Err(e) => { return Err(e) },
    };
    let frame_duration_ms = match reader.word() {
        Ok(v) => v,
        Err(e) => { return Err(e) },
    };
    let _placeholder = match reader.word() {
        Ok(v) => v,
        Err(e) => { return Err(e) },
    };
    let new_num_chunks = match reader.dword() {
        Ok(v) => v,
        Err(e) => { return Err(e) },
    };
    frame_times.set(frame_id as usize, frame_duration_ms);
    let num_chunks: u32 = if new_num_chunks == 0 {
        old_num_chunks as u32
    } else {
        new_num_chunks
    };
    let mut bytes_available: i64 = (num_bytes as i64) - 16;
    let mut idx: u32 = 0;
    while idx < num_chunks
        invariant
            reader.wf(),
            idx <= num_chunks,
            frame_id < num_frames,
            match *palette {
                Some(p) => p.wf(),
                None => true,
            },
            (*layers).wf(),
            framedata.data@.len() == num_frames,
            frame_times@ == old(frame_times)@.update(
                frame_id as int,
                crate::reader::le16(old(reader).bytes(), old(reader).position() + 8),
            ),
            frame_times@.len() == num_frames,
            (*external_files).wf(),
            frame_id != 0 ==> spec_same_tags(*old(tags), *tags),
            crate::reader::le16(old(reader).bytes(), old(reader).position() + 4) == 0xF1FA,
            -0x100000000 <= bytes_available as int <= 0x100000000,
        decreases num_chunks - idx,
    {
        let chunk_size = match reader.dword() {
            Ok(v) => v,
            Err(e) => { return Err(e) },
        };
        let chunk_type_code = match reader.word() {
            Ok(v) => v,
            Err(e) => { return Err(e) },
        };
        let chunk_type = match parse_chunk_type(chunk_type_code) {
            Ok(v) => v,
            Err(e) => { return Err(e) },
        };
        match check_chunk_bytes(chunk_size, bytes_available) {
            Ok(_) => (),
            Err(e) => { return Err(e) },
        }
        let data = match reader.take_bytes((chunk_size - 6) as usize) {
            Ok(v) => v,
            Err(e) => { return Err(e) },
        };
        bytes_available = bytes_available - (chunk_size as i64);
        match chunk_type {
            ChunkType::ColorProfile => {
                let _profile = match crate::color_profile::parse_chunk(
                    data.as_slice(),
                ) {
                    Ok(v) => v,
                    Err(e) => { return Err(e) },
                };
            },
            ChunkType::Palette => {
                let p = match crate::palette::parse_chunk(data.as_slice()) {
                    Ok(v) => v,
                    Err(e) => { return Err(e) },
                };
                *palette = Some(p);
            },
            ChunkType::OldPalette04 => {
                let p = match crate::palette::parse_old_chunk_04(data.as_slice()) {
                    Ok(v) => v,
                    Err(e) => { return Err(e) },
                };
                // A legacy palette chunk precedes the sprite's own user
                // data, so it also moves the context to the sprite level.
                *palette = Some(p);
                *context = Some(UserDataContext::OldPalette);
            },
            ChunkType::OldPalette11 => {
                let p = match crate::palette::parse_old_chunk_11(data.as_slice()) {
                    Ok(v) => v,
                    Err(e) => { return Err(e) },
                };
                *palette = Some(p);
                *context = Some(UserDataContext::OldPalette);
            },
            ChunkType::Layer => {
                let layer_data = match crate::layer::parse_chunk(data.as_slice()) {
                    Ok(v) => v,
                    Err(e) => { return Err(e) },
                };
                match layers {
                    LayerParseInfo::InProgress(v) => {
                        if v.len() >= 0xffff {
                            return Err(
                                AsepriteParseError::InvalidInput("too many layers".to_owned()),
                            );
                        }
                        v.push(layer_data);
                        *context = Some(UserDataContext::LayerIndex((v.len() - 1) as u32));
                    },
                    LayerParseInfo::Finished(_) => {},
                }
            },
            ChunkType::Cel => {
                let cel = match crate::cel::parse_chunk(data.as_slice(), pixel_format) {
                    Ok(v) => v,
                    Err(e) => { return Err(e) },
                };
                let layer_index = cel.data.layer_index;
                match framedata.add_cel(frame_id, cel) {
                    Ok(_) => (),
                    Err(e) => { return Err(e) },
                }
                *context = Some(
                    UserDataContext::CelId(CelId { frame: frame_id, layer: layer_index }),
                );
            },
            ChunkType::ExternalFiles => {
                let mut files = match ExternalFile::parse_chunk(data.as_slice()) {
                    Ok(v) => v,
                    Err(e) => { return Err(e) },
                };
                while files.len() > 0
                    invariant
                        (*external_files).wf(),
                    decreases files@.len(),
                {
                    let f = files.remove(0);
                    external_files.add(f);
                }
            },
            ChunkType::Tags => {
                let parsed = match crate::tags::parse_chunk(data.as_slice()) {
                    Ok(v) => v,
                    Err(e) => { return Err(e) },
                };
                if frame_id == 0 {
                    *tags = Some(parsed);
                    *context = Some(UserDataContext::TagIndex(0));
                }
                // Tags chunks outside frame 0 are ignored.
            },
            ChunkType::Slice => {
                let slice = match crate::slice::parse_chunk(data.as_slice()) {
                    Ok(v) => v,
                    Err(e) => { return Err(e) },
                };
                if slices.len() < 0xffffffff {
                    let idx2 = slices.len() as u32;
                    slices.push(slice);
                    *context = Some(UserDataContext::SliceIndex(idx2));
                }
            },
            ChunkType::UserData => {
                let user_data = match crate::user_data::parse_userdata_chunk(data.as_slice()) {
                    Ok(v) => v,
                    Err(e) => { return Err(e) },
                };
                match *context {
                    None => {
                        return Err(
                            AsepriteParseError::InvalidInput(
                                "dangling user data chunk: no previous chunk to attach it to".to_owned(),
                            ),
                        );
                    },
                    Some(UserDataContext::CelId(cel_id)) => {
                        match framedata.set_cel_user_data(&cel_id, user_data) {
                            Ok(_) => (),
                            Err(e) => { return Err(e) },
                        }
                    },
                    Some(UserDataContext::LayerIndex(layer_index)) => {
                        match layers {
                            LayerParseInfo::InProgress(v) => {
                                match set_vec_layer_user_data(
                                    v,
                                    layer_index as usize,
                                    user_data,
                                ) {
                                    Ok(_) => (),
                                    Err(e) => { return Err(e) },
                                }
                            },
                            LayerParseInfo::Finished(l) => {
                                match l.set_layer_user_data(layer_index as usize, user_data) {
                                    Ok(_) => (),
                                    Err(e) => { return Err(e) },
                                }
                            },
                        }
                    },
                    Some(UserDataContext::OldPalette) => {
                        *sprite_user_data = Some(user_data);
                    },
                    Some(UserDataContext::TagIndex(tag_index)) => {
                        match set_tag_user_data(tags, tag_index, user_data, context) {
                            Ok(_) => (),
                            Err(e) => { return Err(e) },
                        }
                    },
                    Some(UserDataContext::SliceIndex(slice_idx)) => {
                        match set_slice_user_data(slices, slice_idx, user_data) {
                            Ok(_) => (),
                            Err(e) => { return Err(e) },
                        }
                    },
                }
            },
            ChunkType::Tileset => {
                let ts = match crate::tileset::RawTileset::parse_chunk(data.as_slice(), pixel_format) {
                    Ok(v) => v,
                    Err(e) => { return Err(e) },
                };
                tilesets.push(ts);
            },
            ChunkType::CelExtra => {},
            ChunkType::Mask => {},
            ChunkType::Path => {},
        }
        idx = idx + 1;
    }
    Ok(())
}

/// Freeze the collected layer records of frame 0 into the validated layer
/// list with its computed parent relation.
fn finalize_layers(layers: LayerParseInfo) -> (r: Result<LayerParseInfo, AsepriteParseError>)
    ensures
        match r {
            Ok(l) => l.wf() && l is Finished,
            Err(e) => e is InvalidInput || e is InternalError,
        },
{
    match layers {
        LayerParseInfo::InProgress(v) => {
            if v.len() >= 0x10000 {
                return Err(AsepriteParseError::InvalidInput("too many layers".to_owned()));
            }
            let collected = match crate::layer::collect_layers(v) {
                Ok(l) => l,
                Err(e) => { return Err(e) },
            };
            Ok(LayerParseInfo::Finished(collected))
        },
        LayerParseInfo::Finished(_) => Err(
            AsepriteParseError::InternalError(
                "layer data was already finished before frame 0 ended".to_owned(),
            ),
        ),
    }
}

/// Parse a whole document from its bytes: the fixed header, every frame's
/// chunks, and the cross-referential validation passes. On success the
/// document satisfies all the invariants the compositor relies on; a
/// corrupted header magic number fails with `InvalidInput` before anything
/// else is read.
pub fn read_aseprite(input: &[u8]) -> (r: Result<AsepriteFile, AsepriteParseError>)
    ensures
        match r {
            Ok(doc) => {
                &&& doc.wf()
                &&& doc.num_frames == crate::reader::le16(input@, 6)
                &&& doc.width == crate::reader::le16(input@, 8)
                &&& doc.height == crate::reader::le16(input@, 10)
                &&& (crate::reader::le16(input@, 12) == 8 ==> doc.pixel_format
                    == PixelFormat::Indexed { transparent_color_index: input@[28] })
                &&& (crate::reader::le16(input@, 12) == 16 ==> doc.pixel_format is Grayscale)
                &&& (crate::reader::le16(input@, 12) == 32 ==> doc.pixel_format is Rgba)
                &&& (doc.pixel_format is Indexed ==> doc.palette is Some)
            },
            Err(_) => true,
        },
        input@.len() >= 6 && crate::reader::le16(input@, 4) != 0xA5E0 ==> r is Err
            && r->Err_0 is InvalidInput,
        input@.len() >= 128 && crate::reader::le16(input@, 4) == 0xA5E0 && (input@[34] != 1
            || input@[35] != 1) ==> r is Err && r->Err_0 is UnsupportedFeature,
        input@.len() >= 128 && crate::reader::le16(input@, 4) == 0xA5E0 && input@[34] == 1
            && input@[35] == 1 && crate::reader::le16(input@, 12) != 8 && crate::reader::le16(
            input@,
            12,
        ) != 16 && crate::reader::le16(input@, 12) != 32 ==> r is Err
            && r->Err_0 is InvalidInput,
{
    let mut reader = AseReader::new(input);
    let _size = match reader.dword() {
        Ok(v) => v,
        Err(e) => { return Err(e) },
    };
    let magic_number = match reader.word() {
        Ok(v) => v,
        Err(e) => { return Err(e) },
    };
    if magic_number != 0xA5E0 {
        return Err(
            AsepriteParseError::InvalidInput("invalid magic number for header".to_owned()),
        );
    }
    let num_frames = match reader.word() {
        Ok(v) => v,
        Err(e) => { return Err(e) },
    };
    let width = match reader.word() {
        Ok(v) => v,
        Err(e) => { return Err(e) },
    };
    let height = match reader.word() {
        Ok(v) => v,
        Err(e) => { return Err(e) },
    };
    let color_depth = match reader.word() {
        Ok(v) => v,
        Err(e) => { return Err(e) },
    };
    let _flags = match reader.dword() {
        Ok(v) => v,
        Err(e) => { return Err(e) },
    };
    let default_frame_time = match reader.word() {
        Ok(v) => v,
        Err(e) => { return Err(e) },
    };
    let _placeholder1 = match reader.dword() {
        Ok(v) => v,
        Err(e) => { return Err(e) },
    };
    let _placeholder2 = match reader.dword() {
        Ok(v) => v,
        Err(e) => { return Err(e) },
    };
    let transparent_color_index = match reader.byte() {
        Ok(v) => v,
        Err(e) => { return Err(e) },
    };
    let _ignore1 = match reader.byte() {
        Ok(v) => v,
        Err(e) => { return Err(e) },
    };
    let _ignore2 = match reader.word() {
        Ok(v) => v,
        Err(e) => { return Err(e) },
    };
    let _num_colors = match reader.word() {
        Ok(v) => v,
        Err(e) => { return Err(e) },
    };
    let pixel_width = match reader.byte() {
        Ok(v) => v,
        Err(e) => { return Err(e) },
    };
    let pixel_height = match reader.byte() {
        Ok(v) => v,
        Err(e) => { return Err(e) },
    };
    let _grid_x = match reader.short() {
        Ok(v) => v,
        Err(e) => { return Err(e) },
    };
    let _grid_y = match reader.short() {
        Ok(v) => v,
        Err(e) => { return Err(e) },
    };
    let _grid_width = match reader.word() {
        Ok(v) => v,
        Err(e) => { return Err(e) },
    };
    let _grid_height = match reader.word() {
        Ok(v) => v,
        Err(e) => { return Err(e) },
    };
    match reader.skip_reserved(84) {
        Ok(_) => (),
        Err(e) => { return Err(e) },
    }
    if !(pixel_width == 1 && pixel_height == 1) {
        return Err(
            AsepriteParseError::UnsupportedFeature(
                "only a pixel width-to-height ratio of 1:1 is supported".to_owned(),
            ),
        );
    }
    let pixel_format = match parse_pixel_format(color_depth, transparent_color_index) {
        Ok(v) => v,
        Err(e) => { return Err(e) },
    };
    let mut palette: Option<ColorPalette> = None;
    let mut layers = LayerParseInfo::InProgress(Vec::new());
    let mut framedata = RawCelsData::new(num_frames as u32);
    let mut frame_times: Vec<u16> = Vec::new();
    let mut i: u16 = 0;
    while i < num_frames
        invariant
            i <= num_frames,
            frame_times@.len() == i,
        decreases num_frames - i,
    {
        frame_times.push(default_frame_time);
        i = i + 1;
    }
    let mut tags: Option<Vec<Tag>> = None;
    let mut external_files = ExternalFilesById::new();
    let mut tilesets: Vec<RawTileset> = Vec::new();
    let mut sprite_user_data: Option<UserData> = None;
    let mut context: Option<UserDataContext> = None;
    let mut slices: Vec<Slice> = Vec::new();
    let mut frame_id: u16 = 0;
    while frame_id < num_frames
        invariant
            input@.len() >= 6 ==> crate::reader::le16(input@, 4) == 0xA5E0,
            input@[34] == 1 && input@[35] == 1,
            crate::reader::le16(input@, 12) == 8 || crate::reader::le16(input@, 12) == 16
                || crate::reader::le16(input@, 12) == 32,
            reader.wf(),
            frame_id <= num_frames,
            match palette {
                Some(p) => p.wf(),
                None => true,
            },
            layers.wf(),
            framedata.data@.len() == num_frames,
            frame_times@.len() == num_frames,
            external_files.wf(),
        decreases num_frames - frame_id,
    {
        match parse_frame(
            &mut reader,
            frame_id,
            num_frames,
            pixel_format,
            &mut palette,
            &mut layers,
            &mut framedata,
            &mut frame_times,
            &mut tags,
            &mut external_files,
            &mut tilesets,
            &mut sprite_user_data,
            &mut context,
            &mut slices,
        ) {
            Ok(_) => (),
            Err(e) => { return Err(e) },
        }
        if frame_id == 0 {
            layers = match finalize_layers(layers) {
                Ok(l) => l,
                Err(e) => { return Err(e) },
            };
        }
        frame_id = frame_id + 1;
    }
    let layers_data = match layers {
        LayerParseInfo::Finished(l) => l,
        LayerParseInfo::InProgress(_) => {
            return Err(AsepriteParseError::InvalidInput("no layers found".to_owned()));
        },
    };
    match pixel_format {
        PixelFormat::Indexed { .. } => {
            if palette.is_none() {
                return Err(
                    AsepriteParseError::InvalidInput(
                        "the file uses indexed color but carries no palette".to_owned(),
                    ),
                );
            }
        },
        _ => {},
    }
    let transparent_idx: Option<u8> = match pixel_format {
        PixelFormat::Indexed { transparent_color_index } => Some(transparent_color_index),
        _ => None,
    };
    let tilesets_by_id = match crate::tileset::validate_tilesets(
        tilesets,
        palette.as_ref(),
        transparent_idx,
    ) {
        Ok(t) => t,
        Err(e) => { return Err(e) },
    };
    match layers_data.validate(&tilesets_by_id) {
        Ok(_) => (),
        Err(e) => { return Err(e) },
    }
    let celsdata = match crate::cel::validate_cels(
        framedata,
        &layers_data,
        palette.as_ref(),
        transparent_idx,
    ) {
        Ok(c) => c,
        Err(e) => { return Err(e) },
    };
    Ok(
        AsepriteFile {
            width,
            height,
            num_frames,
            pixel_format,
            palette,
            layers: layers_data,
            frame_times,
            tags: match tags {
                Some(t) => t,
                None => Vec::new(),
            },
            framedata: celsdata,
            external_files,
            tilesets: tilesets_by_id,
            sprite_user_data,
            slices,
        },
    )
}

} // verus!
