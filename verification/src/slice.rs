//! Slices: named, frame-indexed regions of the sprite.

use crate::error::AsepriteParseError;
use crate::reader::AseReader;
use crate::user_data::UserData;
use vstd::prelude::*;

verus! {

/// A division of a slice into nine regions for 9-slice scaling.
#[derive(Debug, Clone, Copy, PartialEq, Eq, Structural)]
pub struct Slice9 {
    /// X position of the center area, relative to the slice bounds.
    pub center_x: i32,
    /// Y position of the center area, relative to the slice bounds.
    pub center_y: i32,
    /// Width of the center area.
    pub center_width: u32,
    /// Height of the center area.
    pub center_height: u32,
}

impl Slice9 {
    /// Decode the four center-region fields. Succeeds exactly when sixteen
    /// bytes remain.
    pub fn read(reader: &mut AseReader<'_>) -> (r: Result<Slice9, AsepriteParseError>)
        requires
            old(reader).wf(),
        ensures
            final(reader).wf(),
            final(reader).bytes() == old(reader).bytes(),
            r is Ok <==> old(reader).spec_remaining() >= 16,
            match r {
                Ok(s) => {
                    let b = old(reader).bytes();
                    let p = old(reader).position();
                    &&& s.center_x == crate::reader::le32_signed(b, p)
                    &&& s.center_y == crate::reader::le32_signed(b, p + 4)
                    &&& s.center_width == crate::reader::le32(b, p + 8)
                    &&& s.center_height == crate::reader::le32(b, p + 12)
                    &&& final(reader).position() == p + 16
                },
                Err(e) => e is IoError,
            },
    {
        let center_x = match reader.long() {
            Ok(v) => v,
            Err(e) => { return Err(e) },
        };
        let center_y = match reader.long() {
            Ok(v) => v,
            Err(e) => { return Err(e) },
        };
        let center_width = match reader.dword() {
            Ok(v) => v,
            Err(e) => { return Err(e) },
        };
        let center_height = match reader.dword() {
            Ok(v) => v,
            Err(e) => { return Err(e) },
        };
        Ok(Slice9 { center_x, center_y, center_width, center_height })
    }
}

/// The position and shape of a slice from a given frame on.
#[derive(Debug, Clone, Copy, PartialEq, Eq)]
pub struct SliceKey {
    /// The first frame this key applies to.
    pub from_frame: u32,
    /// Origin of the slice on the canvas.
    pub origin: (i32, i32),
    /// Size of the slice.
    pub size: (u32, u32),
    /// 9-slice information, when present.
    pub slice9: Option<Slice9>,
    /// Pivot point, relative to the origin, when present.
    pub pivot: Option<(i32, i32)>,
}

/// The byte size of one slice key under the given flags: twenty fixed
/// bytes, sixteen more for the 9-slice center, eight more for the pivot.
pub open spec fn spec_slice_key_size(flags: u32) -> int {
    20 + (if flags & 1 == 1 {
        16int
    } else {
        0int
    }) + (if flags & 2 == 2 {
        8int
    } else {
        0int
    })
}

/// The slice key `k` matches the record at offset `o` of `s` under `flags`.
pub open spec fn spec_slice_key_matches(s: Seq<u8>, o: int, flags: u32, k: SliceKey) -> bool {
    &&& k.from_frame == crate::reader::le32(s, o)
    &&& k.origin == (crate::reader::le32_signed(s, o + 4), crate::reader::le32_signed(s, o + 8))
    &&& k.size == (crate::reader::le32(s, o + 12), crate::reader::le32(s, o + 16))
    &&& (k.slice9 is Some <==> flags & 1 == 1)
    &&& (flags & 1 == 1 ==> k.slice9 == Some(
        Slice9 {
            center_x: crate::reader::le32_signed(s, o + 20),
            center_y: crate::reader::le32_signed(s, o + 24),
            center_width: crate::reader::le32(s, o + 28),
            center_height: crate::reader::le32(s, o + 32),
        },
    ))
    &&& (k.pivot is Some <==> flags & 2 == 2)
    &&& (flags & 2 == 2 ==> {
        let po = o + 20 + (if flags & 1 == 1 {
            16int
        } else {
            0int
        });
        k.pivot == Some(
            (crate::reader::le32_signed(s, po), crate::reader::le32_signed(s, po + 4)),
        )
    })
}

impl SliceKey {
    /// Decode one slice key; `flags` selects the optional parts. Succeeds
    /// exactly when the whole key's bytes remain.
    pub fn read(reader: &mut AseReader<'_>, flags: u32) -> (r: Result<SliceKey, AsepriteParseError>)
        requires
            old(reader).wf(),
        ensures
            final(reader).wf(),
            final(reader).bytes() == old(reader).bytes(),
            r is Ok <==> old(reader).spec_remaining() >= spec_slice_key_size(flags),
            match r {
                Ok(k) => spec_slice_key_matches(
                    old(reader).bytes(),
                    old(reader).position(),
                    flags,
                    k,
                ) && final(reader).position() == old(reader).position() + spec_slice_key_size(
                    flags,
                ),
                Err(e) => e is IoError,
            },
    {
        let from_frame = match reader.dword() {
            Ok(v) => v,
            Err(e) => { return Err(e) },
        };
        let origin_x = match reader.long() {
            Ok(v) => v,
            Err(e) => { return Err(e) },
        };
        let origin_y = match reader.long() {
            Ok(v) => v,
            Err(e) => { return Err(e) },
        };
        let slice_width = match reader.dword() {
            Ok(v) => v,
            Err(e) => { return Err(e) },
        };
        let slice_height = match reader.dword() {
            Ok(v) => v,
            Err(e) => { return Err(e) },
        };
        let slice9: Option<Slice9> = if flags & 1 == 1 {
            match Slice9::read(reader) {
                Ok(s) => Some(s),
                Err(e) => { return Err(e) },
            }
        } else {
            None
        };
        let pivot: Option<(i32, i32)> = if flags & 2 == 2 {
            let x = match reader.long() {
                Ok(v) => v,
                Err(e) => { return Err(e) },
            };
            let y = match reader.long() {
                Ok(v) => v,
                Err(e) => { return Err(e) },
            };
            Some((x, y))
        } else {
            None
        };
        Ok(
            SliceKey {
                from_frame,
                origin: (origin_x, origin_y),
                size: (slice_width, slice_height),
                slice9,
                pivot,
            },
        )
    }
}

/// A named slice: a sequence of keys describing its shape over frames.
#[derive(Debug)]
pub struct Slice {
    /// The slice's name; not guaranteed unique.
    pub name: String,
    /// The slice keys, in file order.
    pub keys: Vec<SliceKey>,
    /// Attached user data, when present.
    pub user_data: Option<UserData>,
}

/// True when a slice chunk payload is well-formed: the twelve header bytes,
/// the name, and one whole key record per declared key.
pub open spec fn spec_slice_chunk_ok(s: Seq<u8>) -> bool {
    &&& s.len() >= 12
    &&& crate::reader::spec_string_ok(s, 12)
    &&& crate::reader::spec_string_end(s, 12) + crate::reader::le32(s, 0) * spec_slice_key_size(
        crate::reader::le32(s, 4),
    ) <= s.len()
}

/// Decode a slice chunk: key count, flags, a reserved dword, the name, then
/// the keys. Succeeds exactly on a well-formed payload; the name and every
/// key's fields are tied to their bytes.
pub fn parse_chunk(data: &[u8]) -> (r: Result<Slice, AsepriteParseError>)
    ensures
        r is Ok <==> spec_slice_chunk_ok(data@),
        match r {
            Ok(sl) => {
                let ne = crate::reader::spec_string_end(data@, 12);
                let ksz = spec_slice_key_size(crate::reader::le32(data@, 4));
                &&& sl.name@ == crate::reader::spec_string_at(data@, 12)
                &&& sl.keys@.len() == crate::reader::le32(data@, 0)
                &&& sl.user_data is None
                &&& forall|k: int|
                    #![auto]
                    0 <= k < sl.keys@.len() ==> spec_slice_key_matches(
                        data@,
                        ne + k * ksz,
                        crate::reader::le32(data@, 4),
                        sl.keys@[k],
                    )
            },
            Err(e) => e is InvalidInput || e is IoError,
        },
{
    let ghost s = data@;
    let mut reader = AseReader::new(data);
    let num_slice_keys = match reader.dword() {
        Ok(v) => v,
        Err(e) => { return Err(e) },
    };
    let flags = match reader.dword() {
        Ok(v) => v,
        Err(e) => { return Err(e) },
    };
    let _reserved = match reader.dword() {
        Ok(v) => v,
        Err(e) => { return Err(e) },
    };
    let name = match reader.string() {
        Ok(v) => v,
        Err(e) => { return Err(e) },
    };
    let ghost ne = crate::reader::spec_string_end(s, 12);
    let ghost ksz = spec_slice_key_size(flags);
    let mut keys: Vec<SliceKey> = Vec::new();
    let mut i: u32 = 0;
    while i < num_slice_keys
        invariant
            s == data@,
            s.len() >= 12,
            crate::reader::spec_string_ok(s, 12),
            num_slice_keys == crate::reader::le32(s, 0),
            flags == crate::reader::le32(s, 4),
            ne == crate::reader::spec_string_end(s, 12),
            ksz == spec_slice_key_size(flags),
            reader.wf(),
            reader.bytes() == s,
            i <= num_slice_keys,
            keys@.len() == i,
            reader.position() == ne + i * ksz,
            forall|k: int|
                #![auto]
                0 <= k < i as int ==> spec_slice_key_matches(s, ne + k * ksz, flags, keys@[k]),
        decreases num_slice_keys - i,
    {
        let k = match SliceKey::read(&mut reader, flags) {
            Ok(v) => v,
            Err(e) => {
                proof {
                    assert(ne + (i as int) * ksz + ksz > s.len());
                    assert((i as int + 1) * ksz == (i as int) * ksz + ksz) by (nonlinear_arith);
                    vstd::arithmetic::mul::lemma_mul_inequality(
                        i as int + 1,
                        num_slice_keys as int,
                        ksz,
                    );
                }
                return Err(e);
            },
        };
        keys.push(k);
        proof {
            assert((i as int + 1) * ksz == (i as int) * ksz + ksz) by (nonlinear_arith);
        }
        i = i + 1;
    }
    proof {
        assert(num_slice_keys as int * ksz == (num_slice_keys as int) * ksz);
        assert(ne + num_slice_keys as int * ksz <= s.len());
    }
    Ok(Slice { name, keys, user_data: None })
}

} // verus!
