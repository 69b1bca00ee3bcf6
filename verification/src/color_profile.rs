//! Color profiles: decoded for validation only. Custom gammas and embedded
//! ICC profiles are deliberately unsupported and rejected, not ignored.

use crate::error::AsepriteParseError;
use crate::reader::AseReader;
use vstd::prelude::*;

verus! {

/// The kind of color profile a document declares.
#[derive(Debug, Clone, Copy, PartialEq, Eq, Structural)]
pub enum ColorProfileType {
    /// No profile.
    NoProfile,
    /// The sRGB profile.
    Srgb,
    /// An embedded ICC profile (rejected as unsupported).
    ICC,
}

/// A decoded color profile. A profile only parses successfully without a
/// fixed gamma and without an embedded ICC payload.
#[derive(Debug, Clone, Copy, PartialEq, Eq, Structural)]
pub struct ColorProfile {
    /// The declared profile type.
    pub profile_type: ColorProfileType,
}

/// Decode a color-profile type code; other codes are unsupported.
pub fn parse_color_profile_type(id: u16) -> (r: Result<ColorProfileType, AsepriteParseError>)
    ensures
        match r {
            Ok(t) => (id == 0 ==> t is NoProfile) && (id == 1 ==> t is Srgb) && (id == 2 ==> t is ICC)
                && id <= 2,
            Err(e) => id > 2 && e is UnsupportedFeature,
        },
{
    if id == 0 {
        Ok(ColorProfileType::NoProfile)
    } else if id == 1 {
        Ok(ColorProfileType::Srgb)
    } else if id == 2 {
        Ok(ColorProfileType::ICC)
    } else {
        Err(AsepriteParseError::UnsupportedFeature("unknown color profile type".to_owned()))
    }
}

/// Decode a color-profile chunk. Succeeds exactly when the payload holds
/// its sixteen header bytes, declares no profile or the sRGB profile, and
/// sets no fixed-gamma flag; a fixed gamma or an ICC profile is
/// `UnsupportedFeature`, not silently ignored.
pub fn parse_chunk(data: &[u8]) -> (r: Result<ColorProfile, AsepriteParseError>)
    ensures
        r is Ok <==> data@.len() >= 16 && crate::reader::le16(data@, 0) <= 1 && crate::reader::le16(
            data@,
            2,
        ) & 1 != 1,
        match r {
            Ok(p) => {
                &&& (crate::reader::le16(data@, 0) == 0 ==> p.profile_type is NoProfile)
                &&& (crate::reader::le16(data@, 0) == 1 ==> p.profile_type is Srgb)
            },
            Err(e) => if data@.len() < 16 {
                e is IoError
            } else {
                e is UnsupportedFeature
            },
        },
{
    let mut reader = AseReader::new(data);
    let profile_type_code = match reader.word() {
        Ok(v) => v,
        Err(e) => { return Err(e) },
    };
    let flags = match reader.word() {
        Ok(v) => v,
        Err(e) => { return Err(e) },
    };
    let _fixed_gamma = match reader.dword() {
        Ok(v) => v,
        Err(e) => { return Err(e) },
    };
    match reader.skip_reserved(8) {
        Ok(_) => (),
        Err(e) => { return Err(e) },
    }
    let profile_type = match parse_color_profile_type(profile_type_code) {
        Ok(v) => v,
        Err(e) => { return Err(e) },
    };
    if flags & 1 == 1 {
        return Err(
            AsepriteParseError::UnsupportedFeature("custom gamma is not supported".to_owned()),
        );
    }
    match profile_type {
        ColorProfileType::ICC => Err(
            AsepriteParseError::UnsupportedFeature(
                "embedded ICC color profiles are not supported".to_owned(),
            ),
        ),
        _ => Ok(ColorProfile { profile_type }),
    }
}

} // verus!
