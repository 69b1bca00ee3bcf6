//! Caller-attached metadata: optional text plus an optional color.

use crate::blend::Rgba8;
use crate::error::AsepriteParseError;
use crate::reader::AseReader;
use vstd::prelude::*;

verus! {

/// User-provided metadata attachable to the sprite, a layer, a cel, a tag or
/// a slice.
#[derive(Debug, Clone)]
pub struct UserData {
    /// User-provided text.
    pub text: Option<String>,
    /// User-provided color.
    pub color: Option<Rgba8>,
}

/// The offset of the color bytes of a user-data chunk: after the text
/// string when one is present, else right after the flags.
pub open spec fn spec_user_data_color_off(s: Seq<u8>) -> int {
    if crate::reader::le32(s, 0) & 1 == 1 {
        crate::reader::spec_string_end(s, 4)
    } else {
        4
    }
}

/// True when a user-data chunk payload is well-formed: the flags dword,
/// then a valid string when bit 0 is set and four color bytes when bit 1 is.
pub open spec fn spec_user_data_ok(s: Seq<u8>) -> bool {
    &&& s.len() >= 4
    &&& (crate::reader::le32(s, 0) & 1 == 1 ==> crate::reader::spec_string_ok(s, 4))
    &&& (crate::reader::le32(s, 0) & 2 == 2 ==> spec_user_data_color_off(s) + 4 <= s.len())
}

/// Decode a user-data chunk: a flags dword, then text when bit 0 is set and
/// an RGBA color when bit 1 is set. Succeeds exactly on a well-formed
/// payload; the decoded text and color are tied to their bytes.
pub fn parse_userdata_chunk(data: &[u8]) -> (r: Result<UserData, AsepriteParseError>)
    ensures
        r is Ok <==> spec_user_data_ok(data@),
        match r {
            Ok(u) => {
                let flags = crate::reader::le32(data@, 0);
                let co = spec_user_data_color_off(data@);
                &&& (u.text is Some <==> flags & 1 == 1)
                &&& (flags & 1 == 1 ==> u.text->0@ == crate::reader::spec_string_at(data@, 4))
                &&& (u.color is Some <==> flags & 2 == 2)
                &&& (flags & 2 == 2 ==> u.color == Some(
                    Rgba8 { r: data@[co], g: data@[co + 1], b: data@[co + 2], a: data@[co + 3] },
                ))
            },
            Err(e) => e is InvalidInput || e is IoError,
        },
{
    let mut reader = AseReader::new(data);
    let flags = match reader.dword() {
        Ok(v) => v,
        Err(e) => { return Err(e) },
    };
    let text: Option<String> = if flags & 1 == 1 {
        match reader.string() {
            Ok(s) => Some(s),
            Err(e) => { return Err(e) },
        }
    } else {
        None
    };
    let color: Option<Rgba8> = if flags & 2 == 2 {
        let red = match reader.byte() {
            Ok(v) => v,
            Err(e) => { return Err(e) },
        };
        let green = match reader.byte() {
            Ok(v) => v,
            Err(e) => { return Err(e) },
        };
        let blue = match reader.byte() {
            Ok(v) => v,
            Err(e) => { return Err(e) },
        };
        let alpha = match reader.byte() {
            Ok(v) => v,
            Err(e) => { return Err(e) },
        };
        Some(Rgba8 { r: red, g: green, b: blue, a: alpha })
    } else {
        None
    };
    Ok(UserData { text, color })
}

} // verus!
