//! Error type shared by every parsing function.

use vstd::prelude::*;

verus! {

/// An error reported while reading a sprite document.
///
/// The three externally meaningful kinds are kept apart so that a caller can
/// distinguish a corrupt file (`InvalidInput`) from a well-formed file that
/// uses a feature this library deliberately does not handle
/// (`UnsupportedFeature`), and both from a short or otherwise unreadable
/// input (`IoError`). `InternalError` marks conditions that a successful
/// validation pass should have made unreachable.
#[derive(Debug, Clone, PartialEq, Eq)]
pub enum AsepriteParseError {
    /// The input data was malformed.
    InvalidInput(String),
    /// The input data was well-formed but uses an unsupported feature.
    UnsupportedFeature(String),
    /// An internal invariant was broken; indicates a bug, not bad input.
    InternalError(String),
    /// The input ended early or could not be read.
    IoError(String),
}

impl AsepriteParseError {
    /// True for the `InvalidInput` kind.
    pub fn is_invalid_input(&self) -> (r: bool)
        ensures
            r == (self is InvalidInput),
    {
        match self {
            AsepriteParseError::InvalidInput(_) => true,
            _ => false,
        }
    }

    /// True for the `UnsupportedFeature` kind.
    pub fn is_unsupported_feature(&self) -> (r: bool)
        ensures
            r == (self is UnsupportedFeature),
    {
        match self {
            AsepriteParseError::UnsupportedFeature(_) => true,
            _ => false,
        }
    }

    /// True for the `IoError` kind.
    pub fn is_io_error(&self) -> (r: bool)
        ensures
            r == (self is IoError),
    {
        match self {
            AsepriteParseError::IoError(_) => true,
            _ => false,
        }
    }

    /// The error's message text.
    pub fn message(&self) -> (r: &str)
        ensures
            r@ == self.spec_message(),
    {
        match self {
            AsepriteParseError::InvalidInput(m) => m.as_str(),
            AsepriteParseError::UnsupportedFeature(m) => m.as_str(),
            AsepriteParseError::InternalError(m) => m.as_str(),
            AsepriteParseError::IoError(m) => m.as_str(),
        }
    }

    /// The message carried by any of the kinds.
    pub open spec fn spec_message(&self) -> Seq<char> {
        match self {
            AsepriteParseError::InvalidInput(m) => m@,
            AsepriteParseError::UnsupportedFeature(m) => m@,
            AsepriteParseError::InternalError(m) => m@,
            AsepriteParseError::IoError(m) => m@,
        }
    }
}

} // verus!
