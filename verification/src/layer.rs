//! Layers: the flat, depth-tagged layer list, the computed parent relation,
//! and effective visibility.

use crate::error::AsepriteParseError;
use crate::reader::AseReader;
use crate::user_data::UserData;
use vstd::prelude::*;

verus! {

/// Flag bit: the layer is visible (the eye icon is on).
pub const LAYER_VISIBLE: u32 = 0x0001;

/// Flag bit: the layer can be modified.
pub const LAYER_EDITABLE: u32 = 0x0002;

/// Flag bit: the layer cannot be moved.
pub const LAYER_MOVEMENT_LOCKED: u32 = 0x0004;

/// Flag bit: the layer is a background layer.
pub const LAYER_BACKGROUND: u32 = 0x0008;

/// Flag bit: prefer to link cels when the user copies them.
pub const LAYER_CONTINUOUS: u32 = 0x0010;

/// Flag bit: show this group layer collapsed.
pub const LAYER_COLLAPSED: u32 = 0x0020;

/// Flag bit: this is a reference layer.
pub const LAYER_REFERENCE: u32 = 0x0040;

/// A layer's attribute flags, as a raw bit set.
#[derive(Debug, Clone, Copy, PartialEq, Eq, Structural)]
pub struct LayerFlags {
    /// The raw flag bits.
    pub bits: u32,
}

impl LayerFlags {
    /// Whether every bit of `mask` is set.
    pub open spec fn spec_contains(&self, mask: u32) -> bool {
        self.bits & mask == mask
    }

    /// Whether every bit of `mask` is set.
    pub fn contains(&self, mask: u32) -> (r: bool)
        ensures
            r == self.spec_contains(mask),
    {
        self.bits & mask == mask
    }
}

/// Kind of a layer.
#[derive(Debug, Clone, Copy, PartialEq, Eq, Structural)]
pub enum LayerType {
    /// A regular image layer.
    Image,
    /// A group layer: contains other layers, no image data of its own.
    Group,
    /// A tilemap layer; carries the id of the tileset its tiles come from.
    Tilemap(u32),
}

/// How a layer's pixels combine with the layers beneath it.
#[derive(Debug, Clone, Copy, PartialEq, Eq, Structural)]
pub enum BlendMode {
    /// Plain alpha compositing.
    Normal,
    /// Channel-wise multiply.
    Multiply,
    /// Channel-wise screen.
    Screen,
    /// Channel-wise overlay.
    Overlay,
    /// Channel-wise minimum.
    Darken,
    /// Channel-wise maximum.
    Lighten,
    /// Channel-wise color dodge.
    ColorDodge,
    /// Channel-wise color burn.
    ColorBurn,
    /// Channel-wise hard light.
    HardLight,
    /// Channel-wise soft light (computed over doubles).
    SoftLight,
    /// Channel-wise absolute difference.
    Difference,
    /// Channel-wise exclusion.
    Exclusion,
    /// HSL hue transplant (computed over doubles).
    Hue,
    /// HSL saturation transplant (computed over doubles).
    Saturation,
    /// HSL color transplant (computed over doubles).
    Color,
    /// HSL luminosity transplant (computed over doubles).
    Luminosity,
    /// Channel-wise saturating addition.
    Addition,
    /// Channel-wise saturating subtraction.
    Subtract,
    /// Channel-wise divide.
    Divide,
}

/// The blend mode a 16-bit code decodes to, when within 0..=18.
pub open spec fn spec_blend_mode_of(id: u16) -> Option<BlendMode> {
    if id == 0 {
        Some(BlendMode::Normal)
    } else if id == 1 {
        Some(BlendMode::Multiply)
    } else if id == 2 {
        Some(BlendMode::Screen)
    } else if id == 3 {
        Some(BlendMode::Overlay)
    } else if id == 4 {
        Some(BlendMode::Darken)
    } else if id == 5 {
        Some(BlendMode::Lighten)
    } else if id == 6 {
        Some(BlendMode::ColorDodge)
    } else if id == 7 {
        Some(BlendMode::ColorBurn)
    } else if id == 8 {
        Some(BlendMode::HardLight)
    } else if id == 9 {
        Some(BlendMode::SoftLight)
    } else if id == 10 {
        Some(BlendMode::Difference)
    } else if id == 11 {
        Some(BlendMode::Exclusion)
    } else if id == 12 {
        Some(BlendMode::Hue)
    } else if id == 13 {
        Some(BlendMode::Saturation)
    } else if id == 14 {
        Some(BlendMode::Color)
    } else if id == 15 {
        Some(BlendMode::Luminosity)
    } else if id == 16 {
        Some(BlendMode::Addition)
    } else if id == 17 {
        Some(BlendMode::Subtract)
    } else if id == 18 {
        Some(BlendMode::Divide)
    } else {
        None
    }
}

/// Decode a blend-mode code; codes outside 0..=18 are `InvalidInput`.
pub fn parse_blend_mode(id: u16) -> (r: Result<BlendMode, AsepriteParseError>)
    ensures
        match r {
            Ok(m) => spec_blend_mode_of(id) == Some(m),
            Err(e) => spec_blend_mode_of(id) is None && e is InvalidInput,
        },
{
    match id {
        0 => Ok(BlendMode::Normal),
        1 => Ok(BlendMode::Multiply),
        2 => Ok(BlendMode::Screen),
        3 => Ok(BlendMode::Overlay),
        4 => Ok(BlendMode::Darken),
        5 => Ok(BlendMode::Lighten),
        6 => Ok(BlendMode::ColorDodge),
        7 => Ok(BlendMode::ColorBurn),
        8 => Ok(BlendMode::HardLight),
        9 => Ok(BlendMode::SoftLight),
        10 => Ok(BlendMode::Difference),
        11 => Ok(BlendMode::Exclusion),
        12 => Ok(BlendMode::Hue),
        13 => Ok(BlendMode::Saturation),
        14 => Ok(BlendMode::Color),
        15 => Ok(BlendMode::Luminosity),
        16 => Ok(BlendMode::Addition),
        17 => Ok(BlendMode::Subtract),
        18 => Ok(BlendMode::Divide),
        _ => Err(AsepriteParseError::InvalidInput("invalid blend mode".to_owned())),
    }
}

/// One decoded layer record.
#[derive(Debug)]
pub struct LayerData {
    /// Attribute flags.
    pub flags: LayerFlags,
    /// The layer's name.
    pub name: String,
    /// How the layer combines with the layers beneath it.
    pub blend_mode: BlendMode,
    /// Layer opacity, 0..=255.
    pub opacity: u8,
    /// Image, group or tilemap.
    pub layer_type: LayerType,
    /// Metadata attached by a later user-data chunk.
    pub user_data: Option<UserData>,
    /// Nesting depth in the layer tree (0 = top level).
    pub child_level: u16,
}

impl LayerData {
    /// Whether the layer is a background layer.
    pub open spec fn spec_is_background(&self) -> bool {
        self.flags.spec_contains(LAYER_BACKGROUND)
    }

    /// Whether the layer is a background layer.
    pub fn is_background(&self) -> (r: bool)
        ensures
            r == self.spec_is_background(),
    {
        self.flags.contains(LAYER_BACKGROUND)
    }
}

/// The parent of the layer whose depth is `d`, scanning backward from `j`:
/// the nearest preceding layer with a strictly smaller depth.
pub open spec fn spec_find_parent(s: Seq<LayerData>, j: int, d: u16) -> Option<int>
    decreases j + 1,
{
    if j < 0 {
        None
    } else if s[j].child_level < d {
        Some(j)
    } else {
        spec_find_parent(s, j - 1, d)
    }
}

/// A found parent index lies between 0 and the scan start.
pub proof fn lemma_find_parent_bounds(s: Seq<LayerData>, j: int, d: u16)
    ensures
        match spec_find_parent(s, j, d) {
            Some(k) => 0 <= k <= j,
            None => true,
        },
    decreases j + 1,
{
    if j >= 0 && !(s[j].child_level < d) {
        lemma_find_parent_bounds(s, j - 1, d);
    }
}

/// The parent index of layer `i`, or `None` at top level.
pub open spec fn spec_parent_of(s: Seq<LayerData>, i: int) -> Option<int> {
    if s[i].child_level == 0 {
        None
    } else {
        spec_find_parent(s, i - 1, s[i].child_level)
    }
}

/// Effective visibility of layer `i`: the layer and all its ancestors carry
/// the visible flag.
pub open spec fn spec_visible(s: Seq<LayerData>, i: int) -> bool
    decreases i,
{
    s[i].flags.spec_contains(LAYER_VISIBLE) && match spec_parent_of(s, i) {
        Some(p) => 0 <= p < i && spec_visible(s, p),
        None => true,
    }
}

/// The flat, back-to-front layer list plus the computed parent indices.
#[derive(Debug)]
pub struct LayersData {
    /// Layers, back to front; groups come before their children.
    pub layers: Vec<LayerData>,
    /// The computed parent index of each layer, `None` at top level.
    pub parents: Vec<Option<u32>>,
}

impl LayersData {
    /// The parent vector matches the depth-derived parent relation; parents
    /// always precede their children.
    pub open spec fn wf(&self) -> bool {
        &&& self.parents@.len() == self.layers@.len()
        &&& forall|i: int|
            0 <= i < self.layers@.len() ==> #[trigger] self.parents@[i] == match spec_parent_of(
                self.layers@,
                i,
            ) {
                Some(p) => Some(p as u32),
                None => None::<u32>,
            }
        &&& forall|i: int|
            0 <= i < self.layers@.len() && self.parents@[i] is Some
                ==> #[trigger] self.parents@[i]->0 < i
    }
}

fn compute_parents(layers: &Vec<LayerData>) -> (r: Result<Vec<Option<u32>>, AsepriteParseError>)
    requires
        layers@.len() < 0x10000,
    ensures
        r is Ok <==> forall|i: int|
            #![auto]
            0 <= i < layers@.len() ==> (layers@[i].child_level > 0 ==> spec_parent_of(
                layers@,
                i,
            ) is Some),
        match r {
            Ok(v) => {
                &&& v@.len() == layers@.len()
                &&& forall|i: int|
                    0 <= i < layers@.len() ==> #[trigger] v@[i] == match spec_parent_of(
                        layers@,
                        i,
                    ) {
                        Some(p) => Some(p as u32),
                        None => None::<u32>,
                    }
                &&& forall|i: int|
                    0 <= i < layers@.len() && v@[i] is Some ==> #[trigger] v@[i]->0 < i
            },
            Err(e) => e is InvalidInput,
        },
{
    let mut result: Vec<Option<u32>> = Vec::new();
    let mut id: usize = 0;
    while id < layers.len()
        invariant
            layers@.len() < 0x10000,
            id <= layers@.len(),
            result@.len() == id,
            forall|i: int|
                0 <= i < id ==> #[trigger] result@[i] == match spec_parent_of(layers@, i) {
                    Some(p) => Some(p as u32),
                    None => None::<u32>,
                },
            forall|i: int| 0 <= i < id && result@[i] is Some ==> #[trigger] result@[i]->0 < i,
            forall|i: int|
                #![auto]
                0 <= i < id ==> (layers@[i].child_level > 0 ==> spec_parent_of(layers@, i)
                    is Some),
        decreases layers@.len() - id,
    {
        let my_child_level = layers[id].child_level;
        if my_child_level == 0 {
            result.push(None);
        } else {
            let mut j: usize = id;
            let mut found: Option<u32> = None;
            while j > 0
                invariant_except_break
                    found is None,
                invariant
                    id < layers@.len() < 0x10000,
                    j <= id,
                    spec_find_parent(layers@, id - 1, my_child_level) == spec_find_parent(
                        layers@,
                        j - 1,
                        my_child_level,
                    ),
                    my_child_level == layers@[id as int].child_level,
                ensures
                    match found {
                        Some(p) => spec_find_parent(layers@, id - 1, my_child_level) == Some(
                            p as int,
                        ) && p < id,
                        None => spec_find_parent(layers@, id - 1, my_child_level) is None,
                    },
                decreases j,
            {
                if layers[j - 1].child_level < my_child_level {
                    found = Some((j - 1) as u32);
                    break ;
                }
                j = j - 1;
            }
            match found {
                Some(p) => {
                    result.push(Some(p));
                },
                None => {
                    proof {
                        assert(spec_parent_of(layers@, id as int) is None);
                        assert(layers@[id as int].child_level > 0);
                    }
                    return Err(
                        AsepriteParseError::InvalidInput(
                            "nested layer without a parent group".to_owned(),
                        ),
                    );
                },
            }
        }
        id = id + 1;
    }
    Ok(result)
}

impl LayersData {
    /// Every tilemap layer references an existing tileset.
    pub open spec fn tilesets_valid(&self, tilesets: &crate::tileset::TilesetsById) -> bool {
        forall|i: int|
            0 <= i < self.layers@.len() ==> match (#[trigger] self.layers@[i]).layer_type {
                LayerType::Tilemap(id) => tilesets.spec_has(id),
                _ => true,
            }
    }

    /// Check that every tilemap layer references an existing tileset;
    /// succeeds exactly when they all do.
    pub fn validate(&self, tilesets: &crate::tileset::TilesetsById) -> (r: Result<
        (),
        AsepriteParseError,
    >)
        requires
            tilesets.wf(),
        ensures
            r is Ok <==> self.tilesets_valid(tilesets),
            r is Err ==> r->Err_0 is InvalidInput,
    {
        let mut i: usize = 0;
        while i < self.layers.len()
            invariant
                tilesets.wf(),
                i <= self.layers@.len(),
                forall|j: int|
                    0 <= j < i ==> match (#[trigger] self.layers@[j]).layer_type {
                        LayerType::Tilemap(id) => tilesets.spec_has(id),
                        _ => true,
                    },
            decreases self.layers@.len() - i,
        {
            match self.layers[i].layer_type {
                LayerType::Tilemap(id) => {
                    match tilesets.get(id) {
                        Some(_) => (),
                        None => {
                            proof {
                                assert(match self.layers@[i as int].layer_type {
                                    LayerType::Tilemap(id2) => !tilesets.spec_has(id2),
                                    _ => false,
                                });
                            }
                            return Err(
                                AsepriteParseError::InvalidInput(
                                    "tilemap layer references a missing tileset".to_owned(),
                                ),
                            );
                        },
                    }
                },
                _ => (),
            }
            i = i + 1;
        }
        Ok(())
    }
}

/// Two layer lists with the same nesting depths have the same parent
/// relation.
pub proof fn lemma_find_parent_same_levels(s1: Seq<LayerData>, s2: Seq<LayerData>, j: int, d: u16)
    requires
        s1.len() == s2.len(),
        forall|i: int| 0 <= i < s1.len() ==> s1[i].child_level == s2[i].child_level,
        j < s1.len(),
    ensures
        spec_find_parent(s1, j, d) == spec_find_parent(s2, j, d),
    decreases j + 1,
{
    if j >= 0 {
        lemma_find_parent_same_levels(s1, s2, j - 1, d);
    }
}

impl LayersData {
    /// Attach user data to the layer at `index`. Fails when the index is out
    /// of range; the layer list keeps its structure (only the one layer's
    /// user data changes), so the parent relation is unaffected.
    pub fn set_layer_user_data(&mut self, index: usize, user_data: UserData) -> (r: Result<
        (),
        AsepriteParseError,
    >)
        requires
            old(self).wf(),
        ensures
            final(self).wf(),
            final(self).layers@.len() == old(self).layers@.len(),
            match r {
                Ok(_) => {
                    &&& index < old(self).layers@.len()
                    &&& forall|i: int|
                        0 <= i < old(self).layers@.len() && i != index ==> final(self).layers@[i]
                            == old(self).layers@[i]
                    &&& final(self).layers@[index as int].child_level == old(self).layers@[
                        index as int
                    ].child_level
                    &&& final(self).layers@[index as int].flags == old(self).layers@[
                        index as int
                    ].flags
                    &&& final(self).layers@[index as int].layer_type == old(self).layers@[
                        index as int
                    ].layer_type
                    &&& final(self).layers@[index as int].blend_mode == old(self).layers@[
                        index as int
                    ].blend_mode
                    &&& final(self).layers@[index as int].user_data is Some
                },
                Err(e) => {
                    &&& e is InternalError
                    &&& index >= old(self).layers@.len()
                    &&& final(self).layers@ == old(self).layers@
                    &&& final(self).parents@ == old(self).parents@
                },
            },
    {
        if index >= self.layers.len() {
            return Err(
                AsepriteParseError::InternalError("invalid layer index in chunk context".to_owned()),
            );
        }
        let ghost olds = self.layers@;
        let item = self.layers.remove(index);
        let LayerData { flags, name, blend_mode, opacity, layer_type, user_data: _, child_level } =
            item;
        self.layers.insert(
            index,
            LayerData {
                flags,
                name,
                blend_mode,
                opacity,
                layer_type,
                user_data: Some(user_data),
                child_level,
            },
        );
        proof {
            let news = self.layers@;
            assert(news.len() == olds.len());
            assert forall|i: int| 0 <= i < olds.len() && i != index implies news[i] == olds[i] by {}
            assert forall|i: int| 0 <= i < olds.len() implies news[i].child_level
                == olds[i].child_level by {}
            assert forall|i: int|
                0 <= i < news.len() implies #[trigger] self.parents@[i] == match spec_parent_of(
                news,
                i,
            ) {
                Some(p) => Some(p as u32),
                None => None::<u32>,
            } by {
                lemma_find_parent_same_levels(olds, news, i - 1, news[i].child_level);
                assert(olds[i].child_level == news[i].child_level);
            }
        }
        Ok(())
    }
}

/// Assemble the parsed layer records into a `LayersData`, computing the
/// parent relation from the nesting depths. Succeeds exactly when every
/// nested layer (positive depth) has a preceding layer of smaller depth.
pub fn collect_layers(layers: Vec<LayerData>) -> (r: Result<LayersData, AsepriteParseError>)
    requires
        layers@.len() < 0x10000,
    ensures
        r is Ok <==> forall|i: int|
            #![auto]
            0 <= i < layers@.len() ==> (layers@[i].child_level > 0 ==> spec_parent_of(
                layers@,
                i,
            ) is Some),
        match r {
            Ok(l) => l.wf() && l.layers@ == layers@,
            Err(e) => e is InvalidInput,
        },
{
    let parents = match compute_parents(&layers) {
        Ok(v) => v,
        Err(e) => { return Err(e) },
    };
    Ok(LayersData { layers, parents })
}

/// The layer type a 16-bit code decodes to; a tilemap layer carries the
/// tileset id that follows in the stream. Succeeds exactly on codes 0..=2,
/// with four more bytes present for a tilemap layer.
pub fn parse_layer_type(id: u16, reader: &mut AseReader<'_>) -> (r: Result<
    LayerType,
    AsepriteParseError,
>)
    requires
        old(reader).wf(),
    ensures
        final(reader).wf(),
        final(reader).bytes() == old(reader).bytes(),
        r is Ok <==> id <= 2 && (id == 2 ==> old(reader).spec_remaining() >= 4),
        match r {
            Ok(t) => {
                &&& (id == 0 ==> t is Image && *final(reader) == *old(reader))
                &&& (id == 1 ==> t is Group && *final(reader) == *old(reader))
                &&& (id == 2 ==> t == LayerType::Tilemap(
                    crate::reader::le32(old(reader).bytes(), old(reader).position()),
                ) && final(reader).position() == old(reader).position() + 4)
            },
            Err(e) => if id > 2 {
                e is InvalidInput
            } else {
                e is IoError
            },
        },
{
    if id == 0 {
        Ok(LayerType::Image)
    } else if id == 1 {
        Ok(LayerType::Group)
    } else if id == 2 {
        match reader.dword() {
            Ok(v) => Ok(LayerType::Tilemap(v)),
            Err(e) => Err(e),
        }
    } else {
        Err(AsepriteParseError::InvalidInput("invalid layer type".to_owned()))
    }
}

/// True when a layer chunk payload is well-formed: the 16 fixed header
/// bytes, a name string, a known layer type (with a tileset id for type 2)
/// and a known blend mode.
pub open spec fn spec_layer_chunk_ok(s: Seq<u8>) -> bool {
    &&& s.len() >= 16
    &&& crate::reader::spec_string_ok(s, 16)
    &&& crate::reader::le16(s, 2) <= 2
    &&& (crate::reader::le16(s, 2) == 2 ==> crate::reader::spec_string_end(s, 16) + 4 <= s.len())
    &&& spec_blend_mode_of(crate::reader::le16(s, 10)) is Some
}

/// Decode one layer chunk: flags, type, depth, blend mode, opacity and name
/// (the default size fields are ignored). Succeeds exactly on a well-formed
/// payload; every decoded field is tied to its bytes. User data starts out
/// empty.
pub fn parse_chunk(data: &[u8]) -> (r: Result<LayerData, AsepriteParseError>)
    ensures
        r is Ok <==> spec_layer_chunk_ok(data@),
        match r {
            Ok(l) => {
                &&& l.flags.bits == crate::reader::le16(data@, 0) as u32
                &&& l.child_level == crate::reader::le16(data@, 4)
                &&& Some(l.blend_mode) == spec_blend_mode_of(crate::reader::le16(data@, 10))
                &&& l.opacity == data@[12]
                &&& l.name@ == crate::reader::spec_string_at(data@, 16)
                &&& (crate::reader::le16(data@, 2) == 0 ==> l.layer_type is Image)
                &&& (crate::reader::le16(data@, 2) == 1 ==> l.layer_type is Group)
                &&& (crate::reader::le16(data@, 2) == 2 ==> l.layer_type == LayerType::Tilemap(
                    crate::reader::le32(data@, crate::reader::spec_string_end(data@, 16)),
                ))
                &&& l.user_data is None
            },
            Err(e) => e is InvalidInput || e is IoError,
        },
{
    let mut reader = AseReader::new(data);
    let flags = match reader.word() {
        Ok(v) => v,
        Err(e) => { return Err(e) },
    };
    let layer_type_code = match reader.word() {
        Ok(v) => v,
        Err(e) => { return Err(e) },
    };
    let child_level = match reader.word() {
        Ok(v) => v,
        Err(e) => { return Err(e) },
    };
    let _default_width = match reader.word() {
        Ok(v) => v,
        Err(e) => { return Err(e) },
    };
    let _default_height = match reader.word() {
        Ok(v) => v,
        Err(e) => { return Err(e) },
    };
    let blend_mode_code = match reader.word() {
        Ok(v) => v,
        Err(e) => { return Err(e) },
    };
    let opacity = match reader.byte() {
        Ok(v) => v,
        Err(e) => { return Err(e) },
    };
    match reader.skip_reserved(3) {
        Ok(_) => (),
        Err(e) => { return Err(e) },
    }
    let name = match reader.string() {
        Ok(v) => v,
        Err(e) => { return Err(e) },
    };
    let layer_type = match parse_layer_type(layer_type_code, &mut reader) {
        Ok(v) => v,
        Err(e) => { return Err(e) },
    };
    let blend_mode = match parse_blend_mode(blend_mode_code) {
        Ok(v) => v,
        Err(e) => { return Err(e) },
    };
    Ok(
        LayerData {
            flags: LayerFlags { bits: flags as u32 },
            name,
            blend_mode,
            opacity,
            layer_type,
            user_data: None,
            child_level,
        },
    )
}

} // verus!
