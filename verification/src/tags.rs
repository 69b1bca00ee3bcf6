//! Tags: named frame ranges with an animation direction.

use crate::error::AsepriteParseError;
use crate::reader::AseReader;
use crate::user_data::UserData;
use vstd::prelude::*;

verus! {

/// How a tag's frames are played back.
#[derive(Debug, Clone, Copy, PartialEq, Eq, Structural)]
pub enum AnimationDirection {
    /// Count up from the first frame to the last.
    Forward,
    /// Count down from the last frame to the first.
    Reverse,
    /// Count up, then back down.
    PingPong,
}

/// Decode an animation-direction byte; values above 2 are `InvalidInput`.
pub fn parse_animation_direction(id: u8) -> (r: Result<AnimationDirection, AsepriteParseError>)
    ensures
        match r {
            Ok(d) => (id == 0 ==> d is Forward) && (id == 1 ==> d is Reverse) && (id == 2
                ==> d is PingPong) && id <= 2,
            Err(e) => id > 2 && e is InvalidInput,
        },
{
    if id == 0 {
        Ok(AnimationDirection::Forward)
    } else if id == 1 {
        Ok(AnimationDirection::Reverse)
    } else if id == 2 {
        Ok(AnimationDirection::PingPong)
    } else {
        Err(AsepriteParseError::InvalidInput("unknown animation direction".to_owned()))
    }
}

/// A tag: a possibly overlapping frame range with a playback direction and
/// repeat count. Names are not guaranteed unique.
#[derive(Debug)]
pub struct Tag {
    name: String,
    from_frame: u16,
    to_frame: u16,
    repeat: u16,
    animation_direction: AnimationDirection,
    user_data: Option<UserData>,
}

impl Tag {
    /// The tag's name.
    pub closed spec fn spec_name(&self) -> Seq<char> {
        self.name@
    }

    /// The first frame of the range.
    pub closed spec fn spec_from_frame(&self) -> u16 {
        self.from_frame
    }

    /// The last frame of the range.
    pub closed spec fn spec_to_frame(&self) -> u16 {
        self.to_frame
    }

    /// The repeat count.
    pub closed spec fn spec_repeat(&self) -> u16 {
        self.repeat
    }

    /// The playback direction.
    pub closed spec fn spec_animation_direction(&self) -> AnimationDirection {
        self.animation_direction
    }

    /// The attached user data, if any.
    pub closed spec fn spec_user_data(&self) -> Option<UserData> {
        self.user_data
    }

    /// Tag name; may not be unique among all tags.
    pub fn name(&self) -> (r: &str)
        ensures
            r@ == self.spec_name(),
    {
        self.name.as_str()
    }

    /// First frame included in the tag.
    pub fn from_frame(&self) -> (r: u32)
        ensures
            r == self.spec_from_frame(),
    {
        self.from_frame as u32
    }

    /// Last frame included in the tag.
    pub fn to_frame(&self) -> (r: u32)
        ensures
            r == self.spec_to_frame(),
    {
        self.to_frame as u32
    }

    /// The playback direction.
    pub fn animation_direction(&self) -> (r: AnimationDirection)
        ensures
            r == self.spec_animation_direction(),
    {
        self.animation_direction
    }

    /// The repeat count.
    pub fn repeat(&self) -> (r: u32)
        ensures
            r == self.spec_repeat(),
    {
        self.repeat as u32
    }

    /// The tag's user data, when present.
    pub fn user_data(&self) -> (r: Option<&UserData>)
        ensures
            r is Some <==> self.spec_user_data() is Some,
    {
        match &self.user_data {
            Some(u) => Some(u),
            None => None,
        }
    }

    /// Attach user data to the tag.
    pub fn set_user_data(&mut self, user_data: UserData)
        ensures
            final(self).spec_user_data() is Some,
            final(self).spec_name() == old(self).spec_name(),
            final(self).spec_from_frame() == old(self).spec_from_frame(),
            final(self).spec_to_frame() == old(self).spec_to_frame(),
            final(self).spec_repeat() == old(self).spec_repeat(),
            final(self).spec_animation_direction() == old(self).spec_animation_direction(),
    {
        self.user_data = Some(user_data);
    }
}

/// The payload offset of tag record `k`: records follow the 2-byte count
/// and 8 reserved bytes, each holding 17 fixed bytes and a name string.
pub open spec fn spec_tag_off(s: Seq<u8>, k: int) -> int
    decreases k,
{
    if k <= 0 {
        10
    } else {
        crate::reader::spec_string_end(s, spec_tag_off(s, k - 1) + 17)
    }
}

/// True when the tag record at offset `o` lies inside `s` and carries a
/// known animation direction.
pub open spec fn spec_tag_ok(s: Seq<u8>, o: int) -> bool {
    &&& o + 17 <= s.len()
    &&& crate::reader::spec_string_ok(s, o + 17)
    &&& s[o + 4] <= 2
}

/// True when a tags chunk payload is well-formed.
pub open spec fn spec_tags_chunk_ok(s: Seq<u8>) -> bool {
    &&& s.len() >= 10
    &&& forall|k: int|
        #![trigger spec_tag_off(s, k)]
        0 <= k < crate::reader::le16(s, 0) ==> spec_tag_ok(s, spec_tag_off(s, k))
}

/// The tag `t` matches the record at offset `o`: frame range, direction,
/// repeat count and name, with no user data yet.
pub open spec fn spec_tag_matches(s: Seq<u8>, o: int, t: Tag) -> bool {
    &&& t.spec_from_frame() == crate::reader::le16(s, o)
    &&& t.spec_to_frame() == crate::reader::le16(s, o + 2)
    &&& (s[o + 4] == 0 ==> t.spec_animation_direction() is Forward)
    &&& (s[o + 4] == 1 ==> t.spec_animation_direction() is Reverse)
    &&& (s[o + 4] == 2 ==> t.spec_animation_direction() is PingPong)
    &&& t.spec_repeat() == crate::reader::le16(s, o + 5)
    &&& t.spec_name() == crate::reader::spec_string_at(s, o + 17)
    &&& t.spec_user_data() is None
}

/// Decode a tags chunk: a tag count, 8 reserved bytes, then that many tag
/// records. Succeeds exactly on a well-formed payload; every tag's fields
/// are tied to its record's bytes.
pub fn parse_chunk(data: &[u8]) -> (r: Result<Vec<Tag>, AsepriteParseError>)
    ensures
        r is Ok <==> spec_tags_chunk_ok(data@),
        match r {
            Ok(v) => {
                &&& v@.len() == crate::reader::le16(data@, 0)
                &&& forall|k: int|
                    #![trigger spec_tag_off(data@, k)]
                    0 <= k < v@.len() ==> spec_tag_matches(data@, spec_tag_off(data@, k), v@[k])
            },
            Err(e) => e is InvalidInput || e is IoError,
        },
{
    let ghost s = data@;
    let mut reader = AseReader::new(data);
    let num_tags = match reader.word() {
        Ok(v) => v,
        Err(e) => { return Err(e) },
    };
    match reader.skip_reserved(8) {
        Ok(_) => (),
        Err(e) => { return Err(e) },
    }
    let mut result: Vec<Tag> = Vec::new();
    let mut i: u16 = 0;
    while i < num_tags
        invariant
            s == data@,
            s.len() >= 10,
            num_tags == crate::reader::le16(s, 0),
            reader.wf(),
            reader.bytes() == s,
            i <= num_tags,
            result@.len() == i,
            reader.position() == spec_tag_off(s, i as int),
            forall|k: int|
                #![trigger spec_tag_off(s, k)]
                0 <= k < i as int ==> spec_tag_ok(s, spec_tag_off(s, k)),
            forall|k: int|
                #![trigger spec_tag_off(s, k)]
                0 <= k < i as int ==> spec_tag_matches(s, spec_tag_off(s, k), result@[k]),
        decreases num_tags - i,
    {
        let ghost o = spec_tag_off(s, i as int);
        let from_frame = match reader.word() {
            Ok(v) => v,
            Err(e) => {
                proof {
                    assert(!spec_tag_ok(s, o));
                }
                return Err(e);
            },
        };
        let to_frame = match reader.word() {
            Ok(v) => v,
            Err(e) => {
                proof {
                    assert(!spec_tag_ok(s, o));
                }
                return Err(e);
            },
        };
        let anim_dir = match reader.byte() {
            Ok(v) => v,
            Err(e) => {
                proof {
                    assert(!spec_tag_ok(s, o));
                }
                return Err(e);
            },
        };
        let repeat = match reader.word() {
            Ok(v) => v,
            Err(e) => {
                proof {
                    assert(!spec_tag_ok(s, o));
                }
                return Err(e);
            },
        };
        match reader.skip_reserved(6) {
            Ok(_) => (),
            Err(e) => {
                proof {
                    assert(!spec_tag_ok(s, o));
                }
                return Err(e);
            },
        }
        let _color = match reader.dword() {
            Ok(v) => v,
            Err(e) => {
                proof {
                    assert(!spec_tag_ok(s, o));
                }
                return Err(e);
            },
        };
        let name = match reader.string() {
            Ok(v) => v,
            Err(e) => {
                proof {
                    assert(!crate::reader::spec_string_ok(s, o + 17));
                    assert(!spec_tag_ok(s, o));
                }
                return Err(e);
            },
        };
        let animation_direction = match parse_animation_direction(anim_dir) {
            Ok(v) => v,
            Err(e) => {
                proof {
                    assert(s[o + 4] > 2);
                    assert(!spec_tag_ok(s, o));
                }
                return Err(e);
            },
        };
        result.push(
            Tag { name, from_frame, to_frame, repeat, animation_direction, user_data: None },
        );
        proof {
            assert(spec_tag_ok(s, o));
            assert(reader.position() == spec_tag_off(s, i as int + 1));
        }
        i = i + 1;
    }
    Ok(result)
}

} // verus!
