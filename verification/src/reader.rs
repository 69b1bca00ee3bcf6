//! Sequential little-endian cursor over a byte buffer, plus the zlib and
//! UTF-8 trusted boundary.

use crate::error::AsepriteParseError;
use vstd::prelude::*;

verus! {

/// The 16-bit little-endian value stored at offset `i` of `s`.
pub open spec fn le16(s: Seq<u8>, i: int) -> u16 {
    (s[i] + s[i + 1] * 0x100) as u16
}

/// The 32-bit little-endian value stored at offset `i` of `s`.
pub open spec fn le32(s: Seq<u8>, i: int) -> u32 {
    (s[i] + s[i + 1] * 0x100 + s[i + 2] * 0x10000 + s[i + 3] * 0x1000000) as u32
}

/// The signed 16-bit little-endian value at offset `i` (two's complement).
pub open spec fn le16_signed(s: Seq<u8>, i: int) -> i16 {
    le16(s, i) as i16
}

/// The signed 32-bit little-endian value at offset `i` (two's complement).
pub open spec fn le32_signed(s: Seq<u8>, i: int) -> i32 {
    le32(s, i) as i32
}

/// What zlib decompression yields on the given input: `Some` decompressed
/// bytes, or `None` when the input is not a well-formed zlib stream.
pub uninterp spec fn zlib_inflate(bytes: Seq<u8>) -> Option<Seq<u8>>;

/// True when a length-prefixed string (16-bit byte count, then that many
/// UTF-8 bytes) lies wholly inside `s` at offset `o`.
pub open spec fn spec_string_ok(s: Seq<u8>, o: int) -> bool {
    &&& o + 2 <= s.len()
    &&& o + 2 + le16(s, o) <= s.len()
    &&& vstd::utf8::valid_utf8(s.subrange(o + 2, o + 2 + le16(s, o)))
}

/// The decoded characters of the length-prefixed string at offset `o`.
pub open spec fn spec_string_at(s: Seq<u8>, o: int) -> Seq<char> {
    vstd::utf8::decode_utf8(s.subrange(o + 2, o + 2 + le16(s, o)))
}

/// The offset of the first byte after the length-prefixed string at `o`.
pub open spec fn spec_string_end(s: Seq<u8>, o: int) -> int {
    o + 2 + le16(s, o)
}

/// Relies on flate2's `ZlibDecoder` together with std's `Read::read_to_end`:
/// the decompressed bytes are a function of the compressed input alone, and
/// reading fails exactly when the input is not a valid zlib stream.
#[verifier::external_body]
fn inflate_raw(data: &[u8]) -> (r: Option<Vec<u8>>)
    ensures
        match r {
            Some(out) => zlib_inflate(data@) == Some(out@),
            None => zlib_inflate(data@) is None,
        },
{
    let mut decoder = flate2::read::ZlibDecoder::new(data);
    let mut buffer: Vec<u8> = Vec::new();
    match std::io::Read::read_to_end(&mut decoder, &mut buffer) {
        Ok(_) => Some(buffer),
        Err(_) => None,
    }
}

/// Relies on std's `String::from_utf8`: it succeeds exactly on valid UTF-8
/// input and decodes it as vstd's UTF-8 specification describes.
#[verifier::external_body]
fn string_from_utf8(bytes: Vec<u8>) -> (r: Option<String>)
    ensures
        match r {
            Some(s) => vstd::utf8::valid_utf8(bytes@) && s@ == vstd::utf8::decode_utf8(bytes@),
            None => !vstd::utf8::valid_utf8(bytes@),
        },
{
    String::from_utf8(bytes).ok()
}

/// A cursor over a byte buffer. All multi-byte reads are little-endian; every
/// read fails with an `IoError` when the buffer is too short, never panics.
pub struct AseReader<'a> {
    data: &'a [u8],
    pos: usize,
}

impl<'a> AseReader<'a> {
    /// The bytes the reader walks over.
    pub closed spec fn bytes(&self) -> Seq<u8> {
        self.data@
    }

    /// The current cursor position.
    pub closed spec fn position(&self) -> int {
        self.pos as int
    }

    /// The cursor never points past the end of the buffer.
    pub open spec fn wf(&self) -> bool {
        0 <= self.position() <= self.bytes().len()
    }

    /// Number of bytes left to read.
    pub open spec fn spec_remaining(&self) -> int {
        self.bytes().len() - self.position()
    }

    /// Start a reader at the beginning of `data`.
    pub fn new(data: &'a [u8]) -> (r: AseReader<'a>)
        ensures
            r.wf(),
            r.bytes() == data@,
            r.position() == 0,
    {
        AseReader { data, pos: 0 }
    }

    /// Start a reader over the given input bytes.
    pub fn with(input: &'a [u8]) -> (r: AseReader<'a>)
        ensures
            r.wf(),
            r.bytes() == input@,
            r.position() == 0,
    {
        AseReader::new(input)
    }

    /// Number of bytes left to read.
    pub fn remaining(&self) -> (r: usize)
        requires
            self.wf(),
        ensures
            r == self.spec_remaining(),
    {
        self.data.len() - self.pos
    }

    fn eof_error() -> (r: AsepriteParseError)
        ensures
            r is IoError,
    {
        AsepriteParseError::IoError("unexpected end of input".to_owned())
    }

    /// Read one byte.
    pub fn byte(&mut self) -> (r: Result<u8, AsepriteParseError>)
        requires
            old(self).wf(),
        ensures
            final(self).wf(),
            final(self).bytes() == old(self).bytes(),
            match r {
                Ok(v) => old(self).spec_remaining() >= 1 && v == old(self).bytes()[old(
                    self,
                ).position()] && final(self).position() == old(self).position() + 1,
                Err(e) => old(self).spec_remaining() < 1 && e is IoError && *final(self) == *old(self),
            },
    {
        if self.pos < self.data.len() {
            let v = *vstd::slice::slice_index_get(self.data, self.pos);
            self.pos = self.pos + 1;
            Ok(v)
        } else {
            Err(Self::eof_error())
        }
    }

    /// Read an unsigned 16-bit little-endian value.
    pub fn word(&mut self) -> (r: Result<u16, AsepriteParseError>)
        requires
            old(self).wf(),
        ensures
            final(self).wf(),
            final(self).bytes() == old(self).bytes(),
            match r {
                Ok(v) => old(self).spec_remaining() >= 2 && v == le16(
                    old(self).bytes(),
                    old(self).position(),
                ) && final(self).position() == old(self).position() + 2,
                Err(e) => old(self).spec_remaining() < 2 && e is IoError && *final(self) == *old(self),
            },
    {
        if self.data.len() - self.pos >= 2 {
            let b0 = *vstd::slice::slice_index_get(self.data, self.pos);
            let b1 = *vstd::slice::slice_index_get(self.data, self.pos + 1);
            self.pos = self.pos + 2;
            Ok((b0 as u16) + (b1 as u16) * 0x100)
        } else {
            Err(Self::eof_error())
        }
    }

    /// Read a signed 16-bit little-endian value.
    pub fn short(&mut self) -> (r: Result<i16, AsepriteParseError>)
        requires
            old(self).wf(),
        ensures
            final(self).wf(),
            final(self).bytes() == old(self).bytes(),
            match r {
                Ok(v) => old(self).spec_remaining() >= 2 && v == le16_signed(
                    old(self).bytes(),
                    old(self).position(),
                ) && final(self).position() == old(self).position() + 2,
                Err(e) => old(self).spec_remaining() < 2 && e is IoError && *final(self) == *old(self),
            },
    {
        match self.word() {
            Ok(v) => Ok(
                #[verifier::truncate]
                (v as i16),
            ),
            Err(e) => Err(e),
        }
    }

    /// Read an unsigned 32-bit little-endian value.
    pub fn dword(&mut self) -> (r: Result<u32, AsepriteParseError>)
        requires
            old(self).wf(),
        ensures
            final(self).wf(),
            final(self).bytes() == old(self).bytes(),
            match r {
                Ok(v) => old(self).spec_remaining() >= 4 && v == le32(
                    old(self).bytes(),
                    old(self).position(),
                ) && final(self).position() == old(self).position() + 4,
                Err(e) => old(self).spec_remaining() < 4 && e is IoError && *final(self) == *old(self),
            },
    {
        if self.data.len() - self.pos >= 4 {
            let b0 = *vstd::slice::slice_index_get(self.data, self.pos);
            let b1 = *vstd::slice::slice_index_get(self.data, self.pos + 1);
            let b2 = *vstd::slice::slice_index_get(self.data, self.pos + 2);
            let b3 = *vstd::slice::slice_index_get(self.data, self.pos + 3);
            self.pos = self.pos + 4;
            Ok((b0 as u32) + (b1 as u32) * 0x100 + (b2 as u32) * 0x10000 + (b3 as u32) * 0x1000000)
        } else {
            Err(Self::eof_error())
        }
    }

    /// Read a signed 32-bit little-endian value.
    pub fn long(&mut self) -> (r: Result<i32, AsepriteParseError>)
        requires
            old(self).wf(),
        ensures
            final(self).wf(),
            final(self).bytes() == old(self).bytes(),
            match r {
                Ok(v) => old(self).spec_remaining() >= 4 && v == le32_signed(
                    old(self).bytes(),
                    old(self).position(),
                ) && final(self).position() == old(self).position() + 4,
                Err(e) => old(self).spec_remaining() < 4 && e is IoError && *final(self) == *old(self),
            },
    {
        match self.dword() {
            Ok(v) => Ok(
                #[verifier::truncate]
                (v as i32),
            ),
            Err(e) => Err(e),
        }
    }

    /// Skip `count` reserved bytes.
    pub fn skip_reserved(&mut self, count: usize) -> (r: Result<(), AsepriteParseError>)
        requires
            old(self).wf(),
        ensures
            final(self).wf(),
            final(self).bytes() == old(self).bytes(),
            match r {
                Ok(_) => old(self).spec_remaining() >= count && final(self).position() == old(
                    self,
                ).position() + count,
                Err(e) => old(self).spec_remaining() < count && e is IoError && *final(self) == *old(self),
            },
    {
        if self.data.len() - self.pos >= count {
            self.pos = self.pos + count;
            Ok(())
        } else {
            Err(Self::eof_error())
        }
    }

    /// Read exactly `count` bytes into a fresh vector.
    pub fn take_bytes(&mut self, count: usize) -> (r: Result<Vec<u8>, AsepriteParseError>)
        requires
            old(self).wf(),
        ensures
            final(self).wf(),
            final(self).bytes() == old(self).bytes(),
            match r {
                Ok(v) => old(self).spec_remaining() >= count && v@ == old(self).bytes().subrange(
                    old(self).position(),
                    old(self).position() + count,
                ) && final(self).position() == old(self).position() + count,
                Err(e) => old(self).spec_remaining() < count && e is IoError && *final(self) == *old(self),
            },
    {
        if self.data.len() - self.pos >= count {
            let s = vstd::slice::slice_subrange(self.data, self.pos, self.pos + count);
            let v = vstd::slice::slice_to_vec(s);
            self.pos = self.pos + count;
            Ok(v)
        } else {
            Err(Self::eof_error())
        }
    }

    /// Read a length-prefixed UTF-8 string (16-bit length, then that many
    /// bytes). Succeeds exactly when the full string lies inside the buffer
    /// and is valid UTF-8; fails with `IoError` on a truncated read and with
    /// `InvalidInput` on invalid UTF-8.
    pub fn string(&mut self) -> (r: Result<String, AsepriteParseError>)
        requires
            old(self).wf(),
        ensures
            final(self).wf(),
            final(self).bytes() == old(self).bytes(),
            r is Ok <==> spec_string_ok(old(self).bytes(), old(self).position()),
            match r {
                Ok(s) => {
                    &&& s@ == spec_string_at(old(self).bytes(), old(self).position())
                    &&& final(self).position() == spec_string_end(
                        old(self).bytes(),
                        old(self).position(),
                    )
                },
                Err(e) => {
                    let b = old(self).bytes();
                    let p = old(self).position();
                    if p + 2 > b.len() || p + 2 + le16(b, p) > b.len() {
                        e is IoError
                    } else {
                        e is InvalidInput
                    }
                },
            },
    {
        let len = match self.word() {
            Ok(v) => v,
            Err(e) => { return Err(e) },
        };
        let bytes = match self.take_bytes(len as usize) {
            Ok(v) => v,
            Err(e) => { return Err(e) },
        };
        match string_from_utf8(bytes) {
            Some(s) => Ok(s),
            None => Err(AsepriteParseError::InvalidInput("string is not valid UTF-8".to_owned())),
        }
    }

    /// Inflate the remaining bytes as a zlib stream and demand exactly
    /// `expected_size` decompressed bytes; consumes the rest of the buffer.
    /// Succeeds exactly when the remaining bytes form a valid zlib stream
    /// that decompresses to `expected_size` bytes.
    pub fn unzip(&mut self, expected_size: usize) -> (r: Result<Vec<u8>, AsepriteParseError>)
        requires
            old(self).wf(),
        ensures
            final(self).wf(),
            final(self).bytes() == old(self).bytes(),
            ({
                let rest = old(self).bytes().subrange(
                    old(self).position(),
                    old(self).bytes().len() as int,
                );
                &&& (r is Ok <==> (zlib_inflate(rest) matches Some(out) && out.len()
                    == expected_size))
                &&& match r {
                    Ok(v) => zlib_inflate(rest) == Some(v@) && v@.len() == expected_size,
                    Err(e) => e is InvalidInput,
                }
            }),
    {
        let s = vstd::slice::slice_subrange(self.data, self.pos, self.data.len());
        self.pos = self.data.len();
        match inflate_raw(s) {
            Some(v) => {
                if v.len() == expected_size {
                    Ok(v)
                } else {
                    Err(
                        AsepriteParseError::InvalidInput(
                            "decompressed data has the wrong size".to_owned(),
                        ),
                    )
                }
            },
            None => Err(
                AsepriteParseError::InvalidInput("invalid zlib-compressed data".to_owned()),
            ),
        }
    }
}

} // verus!
