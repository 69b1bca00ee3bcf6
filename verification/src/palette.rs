//! The color palette: a sparse map from indices to RGBA entries, with the
//! current and the two legacy on-disk encodings.

use crate::blend::Rgba8;
use crate::error::AsepriteParseError;
use crate::reader::AseReader;
use vstd::prelude::*;

verus! {

/// A single entry in a [`ColorPalette`].
#[derive(Debug, Clone)]
pub struct ColorPaletteEntry {
    id: u32,
    rgba8: Rgba8,
    name: Option<String>,
}

impl ColorPaletteEntry {
    /// The index this entry occupies.
    pub closed spec fn spec_id(&self) -> u32 {
        self.id
    }

    /// The entry's color.
    pub closed spec fn spec_rgba(&self) -> Rgba8 {
        self.rgba8
    }

    /// The entry's optional name.
    pub closed spec fn spec_name(&self) -> Option<Seq<char>> {
        match self.name {
            Some(n) => Some(n@),
            None => None,
        }
    }

    /// Build an entry.
    pub fn new(id: u32, rgba8: Rgba8, name: Option<String>) -> (r: ColorPaletteEntry)
        ensures
            r.spec_id() == id,
            r.spec_rgba() == rgba8,
            name is Some ==> r.spec_name() == Some(name->0@),
            name is None ==> r.spec_name() is None,
    {
        ColorPaletteEntry { id, rgba8, name }
    }

    /// The id of this entry; equal to its index in the palette.
    pub fn id(&self) -> (r: u32)
        ensures
            r == self.spec_id(),
    {
        self.id
    }

    /// The entry's color.
    pub fn rgba(&self) -> (r: Rgba8)
        ensures
            r == self.spec_rgba(),
    {
        self.rgba8
    }

    /// The RGBA components as an array.
    pub fn raw_rgba8(&self) -> (r: [u8; 4])
        ensures
            r@ == seq![
                self.spec_rgba().r,
                self.spec_rgba().g,
                self.spec_rgba().b,
                self.spec_rgba().a,
            ],
    {
        let c = self.rgba8;
        let out: [u8; 4] = [c.r, c.g, c.b, c.a];
        proof {
            assert(out@ =~= seq![c.r, c.g, c.b, c.a]);
        }
        out
    }

    /// The red channel.
    pub fn red(&self) -> (r: u8)
        ensures
            r == self.spec_rgba().r,
    {
        self.rgba8.r
    }

    /// The green channel.
    pub fn green(&self) -> (r: u8)
        ensures
            r == self.spec_rgba().g,
    {
        self.rgba8.g
    }

    /// The blue channel.
    pub fn blue(&self) -> (r: u8)
        ensures
            r == self.spec_rgba().b,
    {
        self.rgba8.b
    }

    /// The alpha channel (0 = fully transparent, 255 = fully opaque).
    pub fn alpha(&self) -> (r: u8)
        ensures
            r == self.spec_rgba().a,
    {
        self.rgba8.a
    }

    /// The color name, usually absent.
    pub fn name(&self) -> (r: Option<&str>)
        ensures
            match r {
                Some(n) => self.spec_name() == Some(n@),
                None => self.spec_name() is None,
            },
    {
        match &self.name {
            Some(n) => Some(n.as_str()),
            None => None,
        }
    }
}

/// The color palette of a document: entries held sorted by strictly
/// increasing index.
#[derive(Debug, Clone)]
pub struct ColorPalette {
    entries: Vec<ColorPaletteEntry>,
}

impl ColorPalette {
    /// The entries, in index order.
    pub closed spec fn spec_entries(&self) -> Seq<ColorPaletteEntry> {
        self.entries@
    }

    /// Entries are sorted by strictly increasing id (so ids are unique).
    pub open spec fn wf(&self) -> bool {
        forall|i: int, j: int|
            0 <= i < j < self.spec_entries().len() ==> self.spec_entries()[i].spec_id()
                < self.spec_entries()[j].spec_id()
    }

    /// Whether the palette has an entry at `index`.
    pub open spec fn spec_has(&self, index: u32) -> bool {
        exists|i: int|
            0 <= i < self.spec_entries().len() && self.spec_entries()[i].spec_id() == index
    }

    /// The entry at `index`, when present.
    pub open spec fn spec_color(&self, index: u32) -> Option<ColorPaletteEntry> {
        if self.spec_has(index) {
            Some(
                self.spec_entries()[choose|i: int|
                    0 <= i < self.spec_entries().len() && self.spec_entries()[i].spec_id()
                        == index],
            )
        } else {
            None
        }
    }

    /// An empty palette.
    pub fn new() -> (r: ColorPalette)
        ensures
            r.wf(),
            r.spec_entries().len() == 0,
    {
        ColorPalette { entries: Vec::new() }
    }

    /// The entries, in index order.
    pub fn entries_vec(&self) -> (r: &Vec<ColorPaletteEntry>)
        ensures
            r@ == self.spec_entries(),
    {
        &self.entries
    }

    /// Total number of colors in the palette.
    pub fn num_colors(&self) -> (r: u32)
        requires
            self.spec_entries().len() <= u32::MAX,
        ensures
            r == self.spec_entries().len(),
    {
        self.entries.len() as u32
    }

    /// Look up the entry at the given index; `None` when absent.
    pub fn color(&self, index: u32) -> (r: Option<&ColorPaletteEntry>)
        requires
            self.wf(),
        ensures
            match r {
                Some(e) => self.spec_color(index) == Some(*e),
                None => self.spec_color(index) is None,
            },
    {
        let mut i: usize = 0;
        while i < self.entries.len()
            invariant
                self.wf(),
                i <= self.spec_entries().len(),
                forall|j: int| 0 <= j < i ==> self.spec_entries()[j].spec_id() != index,
            decreases self.spec_entries().len() - i,
        {
            if self.entries[i].id() == index {
                proof {
                    assert((i as int) < self.spec_entries().len() && self.spec_entries()[
                        i as int
                    ].spec_id() == index);
                    assert(self.spec_has(index));
                    let w = choose|k: int|
                        0 <= k < self.spec_entries().len() && self.spec_entries()[k].spec_id()
                            == index;
                    if w < i {
                        assert(self.spec_entries()[w].spec_id() < self.spec_entries()[i as int].spec_id());
                    } else if w > i {
                        assert(self.spec_entries()[i as int].spec_id() < self.spec_entries()[w].spec_id());
                    }
                }
                return Some(&self.entries[i]);
            }
            i = i + 1;
        }
        None
    }

    /// Insert an entry, replacing any entry with the same id and keeping the
    /// index order.
    pub fn insert(&mut self, entry: ColorPaletteEntry)
        requires
            old(self).wf(),
        ensures
            final(self).wf(),
            final(self).spec_has(entry.spec_id()),
            final(self).spec_color(entry.spec_id()) == Some(entry),
            forall|x: u32|
                x != entry.spec_id() ==> final(self).spec_color(x) == old(self).spec_color(x),
            final(self).spec_entries().len() <= old(self).spec_entries().len() + 1,
            old(self).spec_has(entry.spec_id()) ==> final(self).spec_entries().len() == old(
                self,
            ).spec_entries().len(),
            !old(self).spec_has(entry.spec_id()) ==> final(self).spec_entries().len() == old(
                self,
            ).spec_entries().len() + 1,
    {
        let ghost olds = self.spec_entries();
        let mut i: usize = 0;
        while i < self.entries.len() && self.entries[i].id() < entry.id()
            invariant
                self.spec_entries() == olds,
                i <= olds.len(),
                forall|j: int| 0 <= j < i ==> olds[j].spec_id() < entry.spec_id(),
            decreases self.spec_entries().len() - i,
        {
            i = i + 1;
        }
        if i < self.entries.len() && self.entries[i].id() == entry.id() {
            self.entries.set(i, entry);
            proof {
                lemma_palette_lookup(olds, self.spec_entries(), entry, i as int, true);
            }
        } else {
            proof {
                assert forall|k: int| 0 <= k < olds.len() implies olds[k].spec_id()
                    != entry.spec_id() by {
                    if k >= i && i < olds.len() && k > i {
                        assert(olds[i as int].spec_id() < olds[k].spec_id());
                    }
                }
            }
            self.entries.insert(i, entry);
            proof {
                lemma_palette_lookup(olds, self.spec_entries(), entry, i as int, false);
            }
        }
    }
}

proof fn lemma_palette_lookup(
    olds: Seq<ColorPaletteEntry>,
    news: Seq<ColorPaletteEntry>,
    entry: ColorPaletteEntry,
    i: int,
    replaced: bool,
)
    requires
        forall|a: int, b: int| 0 <= a < b < olds.len() ==> olds[a].spec_id() < olds[b].spec_id(),
        0 <= i <= olds.len(),
        forall|j: int| 0 <= j < i ==> olds[j].spec_id() < entry.spec_id(),
        replaced ==> i < olds.len() && olds[i].spec_id() == entry.spec_id() && news == olds.update(
            i,
            entry,
        ),
        !replaced ==> (i == olds.len() || olds[i].spec_id() > entry.spec_id()) && news
            == olds.insert(i, entry),
    ensures
        forall|a: int, b: int| 0 <= a < b < news.len() ==> news[a].spec_id() < news[b].spec_id(),
        exists|k: int| 0 <= k < news.len() && news[k].spec_id() == entry.spec_id(),
        forall|k: int|
            0 <= k < news.len() && news[k].spec_id() == entry.spec_id() ==> news[k] == entry,
        forall|x: ColorPaletteEntry|
            olds.contains(x) && x.spec_id() != entry.spec_id() ==> news.contains(x),
        forall|x: ColorPaletteEntry|
            news.contains(x) ==> x == entry || (olds.contains(x) && x.spec_id()
                != entry.spec_id()),
{
    assert(news[i] == entry);
    if replaced {
        assert forall|x: ColorPaletteEntry|
            olds.contains(x) && x.spec_id() != entry.spec_id() implies news.contains(x) by {
            let k = choose|k: int| 0 <= k < olds.len() && olds[k] == x;
            assert(news[k] == x);
        }
        assert forall|x: ColorPaletteEntry| news.contains(x) implies x == entry || (olds.contains(
            x,
        ) && x.spec_id() != entry.spec_id()) by {
            let k = choose|k: int| 0 <= k < news.len() && news[k] == x;
            if k != i {
                assert(olds[k] == x);
                if x.spec_id() == entry.spec_id() {
                    assert(olds[i].spec_id() == entry.spec_id());
                    if k < i {
                        assert(olds[k].spec_id() < olds[i].spec_id());
                    } else {
                        assert(olds[i].spec_id() < olds[k].spec_id());
                    }
                }
            }
        }
    } else {
        assert forall|a: int, b: int| 0 <= a < b < news.len() implies news[a].spec_id()
            < news[b].spec_id() by {
            if a < i && b > i {
                assert(news[a] == olds[a] && news[b] == olds[b - 1]);
            } else if a == i {
                assert(news[b] == olds[b - 1]);
            } else if b == i {
                assert(news[a] == olds[a]);
            } else if b < i {
                assert(news[a] == olds[a] && news[b] == olds[b]);
            } else {
                assert(news[a] == olds[a - 1] && news[b] == olds[b - 1]);
            }
        }
        assert forall|x: ColorPaletteEntry|
            olds.contains(x) && x.spec_id() != entry.spec_id() implies news.contains(x) by {
            let k = choose|k: int| 0 <= k < olds.len() && olds[k] == x;
            if k < i {
                assert(news[k] == x);
            } else {
                assert(news[k + 1] == x);
            }
        }
        assert forall|x: ColorPaletteEntry| news.contains(x) implies x == entry || (olds.contains(
            x,
        ) && x.spec_id() != entry.spec_id()) by {
            let k = choose|k: int| 0 <= k < news.len() && news[k] == x;
            if k != i {
                if k < i {
                    assert(olds[k] == x);
                    assert(olds[k].spec_id() < entry.spec_id());
                } else {
                    assert(olds[k - 1] == x);
                    if i < olds.len() {
                        if k - 1 == i {
                            assert(olds[i].spec_id() > entry.spec_id());
                        } else {
                            assert(olds[i].spec_id() < olds[k - 1].spec_id());
                            assert(olds[i].spec_id() > entry.spec_id());
                        }
                    } else {
                        assert(false);
                    }
                }
            }
        }
    }
}

/// Scale a 6-bit legacy color value to 8 bits so that 0 maps to 0 and 63 to
/// 255: `value * 4 + value / 16` (the top two bits are replicated into the
/// low two bits). Fails with `InvalidInput` at 64 and above.
pub fn scale_6bit_to_8bit(color: u8) -> (r: Result<u8, AsepriteParseError>)
    ensures
        match r {
            Ok(v) => color < 64 && v == color * 4 + color / 16,
            Err(e) => color >= 64 && e is InvalidInput,
        },
{
    if color >= 64 {
        Err(AsepriteParseError::InvalidInput("6-bit color outside range".to_owned()))
    } else {
        Ok(color * 4 + color / 16)
    }
}

/// The payload offset of entry `k` of a palette chunk: entries start at
/// byte 20, and each occupies its two flag bytes, four color bytes and —
/// when flag bit 0 is set — a length-prefixed name string.
pub open spec fn spec_pal_entry_off(s: Seq<u8>, k: int) -> int
    decreases k,
{
    if k <= 0 {
        20
    } else {
        let o = spec_pal_entry_off(s, k - 1);
        o + 6 + if crate::reader::le16(s, o) & 1 == 1 {
            2 + crate::reader::le16(s, o + 6)
        } else {
            0
        }
    }
}

/// True when the palette entry at offset `o` lies wholly inside `s`.
pub open spec fn spec_pal_entry_ok(s: Seq<u8>, o: int) -> bool {
    &&& o + 6 <= s.len()
    &&& (crate::reader::le16(s, o) & 1 == 1 ==> crate::reader::spec_string_ok(s, o + 6))
}

/// True when a palette chunk payload is well-formed: the 20 header bytes, a
/// non-reversed index range, and one whole entry per index.
pub open spec fn spec_palette_chunk_ok(s: Seq<u8>) -> bool {
    &&& s.len() >= 20
    &&& crate::reader::le32(s, 4) <= crate::reader::le32(s, 8)
    &&& forall|k: int|
        #![trigger spec_pal_entry_off(s, k)]
        0 <= k <= crate::reader::le32(s, 8) - crate::reader::le32(s, 4) ==> spec_pal_entry_ok(
            s,
            spec_pal_entry_off(s, k),
        )
}

/// What entry `k` of a palette chunk decodes to, at its offset `o`: the four
/// color bytes after the flags word, and the name string when flag bit 0 is
/// set.
pub open spec fn spec_pal_entry_matches(s: Seq<u8>, k: int, first: int, e: ColorPaletteEntry) -> bool {
    let o = spec_pal_entry_off(s, k);
    &&& e.spec_id() == first + k
    &&& e.spec_rgba() == (Rgba8 { r: s[o + 2], g: s[o + 3], b: s[o + 4], a: s[o + 5] })
    &&& if crate::reader::le16(s, o) & 1 == 1 {
        e.spec_name() == Some(crate::reader::spec_string_at(s, o + 6))
    } else {
        e.spec_name() is None
    }
}

/// Decode a current-format palette chunk. Succeeds exactly on a well-formed
/// payload; the palette then holds exactly the indices `first..=last`, and
/// the entry at index `first + k` carries the RGBA bytes and optional name
/// of the `k`-th entry record.
pub fn parse_chunk(data: &[u8]) -> (r: Result<ColorPalette, AsepriteParseError>)
    ensures
        r is Ok <==> spec_palette_chunk_ok(data@),
        match r {
            Ok(p) => {
                let first = crate::reader::le32(data@, 4) as int;
                let last = crate::reader::le32(data@, 8) as int;
                &&& p.wf()
                &&& first <= last
                &&& p.spec_entries().len() == last - first + 1
                &&& forall|x: u32| p.spec_has(x) <==> first <= x <= last
                &&& forall|k: int|
                    #![trigger spec_pal_entry_off(data@, k)]
                    0 <= k <= last - first ==> p.spec_color((first + k) as u32) is Some
                        && spec_pal_entry_matches(
                        data@,
                        k,
                        first,
                        p.spec_color((first + k) as u32)->0,
                    )
            },
            Err(e) => e is InvalidInput || e is IoError,
        },
{
    let ghost s = data@;
    let mut reader = AseReader::new(data);
    let _num_total_entries = match reader.dword() {
        Ok(v) => v,
        Err(e) => { return Err(e) },
    };
    let first = match reader.dword() {
        Ok(v) => v,
        Err(e) => { return Err(e) },
    };
    let last = match reader.dword() {
        Ok(v) => v,
        Err(e) => { return Err(e) },
    };
    match reader.skip_reserved(8) {
        Ok(_) => (),
        Err(e) => { return Err(e) },
    }
    if last < first {
        return Err(AsepriteParseError::InvalidInput("bad palette color indices".to_owned()));
    }
    let mut pal = ColorPalette::new();
    let mut id: u64 = first as u64;
    while id <= last as u64
        invariant
            s == data@,
            s.len() >= 20,
            first == crate::reader::le32(s, 4),
            last == crate::reader::le32(s, 8),
            first <= last,
            reader.wf(),
            reader.bytes() == s,
            first <= id,
            id <= last as u64 + 1,
            reader.position() == spec_pal_entry_off(s, id - first),
            pal.wf(),
            pal.spec_entries().len() == id - first,
            forall|x: u32| pal.spec_has(x) <==> first <= x < id,
            forall|k: int|
                #![trigger spec_pal_entry_off(s, k)]
                0 <= k < id - first ==> spec_pal_entry_ok(s, spec_pal_entry_off(s, k)),
            forall|k: int|
                #![trigger spec_pal_entry_off(s, k)]
                0 <= k < id - first ==> pal.spec_color((first + k) as u32) is Some
                    && spec_pal_entry_matches(s, k, first as int, pal.spec_color(
                    (first + k) as u32,
                )->0),
        decreases last as u64 + 1 - id,
    {
        let ghost k = id - first;
        let ghost o = spec_pal_entry_off(s, k as int);
        let flags = match reader.word() {
            Ok(v) => v,
            Err(e) => {
                proof {
                    assert(!spec_pal_entry_ok(s, o));
                }
                return Err(e);
            },
        };
        let red = match reader.byte() {
            Ok(v) => v,
            Err(e) => {
                proof {
                    assert(!spec_pal_entry_ok(s, o));
                }
                return Err(e);
            },
        };
        let green = match reader.byte() {
            Ok(v) => v,
            Err(e) => {
                proof {
                    assert(!spec_pal_entry_ok(s, o));
                }
                return Err(e);
            },
        };
        let blue = match reader.byte() {
            Ok(v) => v,
            Err(e) => {
                proof {
                    assert(!spec_pal_entry_ok(s, o));
                }
                return Err(e);
            },
        };
        let alpha = match reader.byte() {
            Ok(v) => v,
            Err(e) => {
                proof {
                    assert(!spec_pal_entry_ok(s, o));
                }
                return Err(e);
            },
        };
        let name: Option<String> = if flags & 1 == 1 {
            match reader.string() {
                Ok(n) => Some(n),
                Err(e) => {
                    proof {
                        assert(!crate::reader::spec_string_ok(s, o + 6));
                        assert(!spec_pal_entry_ok(s, o));
                    }
                    return Err(e);
                },
            }
        } else {
            None
        };
        proof {
            assert(spec_pal_entry_ok(s, o));
            assert(reader.position() == spec_pal_entry_off(s, k as int + 1));
        }
        let entry = ColorPaletteEntry::new(
            id as u32,
            Rgba8 { r: red, g: green, b: blue, a: alpha },
            name,
        );
        proof {
            assert(spec_pal_entry_matches(s, k as int, first as int, entry));
        }
        let ghost prev = pal;
        pal.insert(entry);
        proof {
            assert forall|x: u32| pal.spec_has(x) <==> first <= x < id + 1 by {
                if x == id as u32 {
                    assert(pal.spec_has(x));
                } else {
                    assert(pal.spec_color(x) == prev.spec_color(x));
                    if pal.spec_has(x) {
                        assert(pal.spec_color(x) is Some);
                        assert(prev.spec_color(x) is Some);
                        assert(prev.spec_has(x));
                    }
                    if prev.spec_has(x) {
                        assert(prev.spec_color(x) is Some);
                        assert(pal.spec_color(x) is Some);
                        assert(pal.spec_has(x));
                    }
                }
            }
            assert forall|k2: int|
                #![trigger spec_pal_entry_off(s, k2)]
                0 <= k2 < id + 1 - first implies pal.spec_color((first + k2) as u32) is Some
                && spec_pal_entry_matches(s, k2, first as int, pal.spec_color(
                (first + k2) as u32,
            )->0) by {
                if k2 == k {
                    assert(pal.spec_color(id as u32) == Some(entry));
                } else {
                    assert((first + k2) as u32 != entry.spec_id());
                    assert(pal.spec_color((first + k2) as u32) == prev.spec_color(
                        (first + k2) as u32,
                    ));
                }
            }
        }
        id = id + 1;
    }
    proof {
        assert forall|k: int|
            #![trigger spec_pal_entry_off(s, k)]
            0 <= k <= last - first implies spec_pal_entry_ok(s, spec_pal_entry_off(s, k)) by {}
    }
    Ok(pal)
}

/// The payload offset of packet `k` of a legacy palette chunk: packets
/// follow the 2-byte packet count, each holding a skip byte, a count byte
/// (0 meaning 256 colors) and three bytes per color.
pub open spec fn spec_old_pal_off(s: Seq<u8>, k: int) -> int
    decreases k,
{
    if k <= 0 {
        2
    } else {
        let o = spec_old_pal_off(s, k - 1);
        o + 2 + 3 * spec_old_pal_count(s, o)
    }
}

/// The number of colors of the packet at offset `o`.
pub open spec fn spec_old_pal_count(s: Seq<u8>, o: int) -> int {
    if s[o + 1] == 0 {
        256
    } else {
        s[o + 1] as int
    }
}

/// The accumulated skip before packet `k` (the skip bytes add up across
/// packets, and a packet's colors occupy consecutive indices from there).
pub open spec fn spec_old_pal_skip(s: Seq<u8>, k: int) -> int
    decreases k,
{
    if k <= 0 {
        0
    } else {
        spec_old_pal_skip(s, k - 1) + s[spec_old_pal_off(s, k - 1)]
    }
}

/// The first index packet `k` covers.
pub open spec fn spec_old_pal_start(s: Seq<u8>, k: int) -> int {
    spec_old_pal_skip(s, k) + s[spec_old_pal_off(s, k)]
}

/// Where index `id` is found among the first `n` packets: the offset of its
/// three color bytes in the packet that set it last, or `None` when no
/// packet covers it.
pub open spec fn spec_old_pal_lookup(s: Seq<u8>, n: int, id: int) -> Option<int>
    decreases n,
{
    if n <= 0 {
        None
    } else {
        let o = spec_old_pal_off(s, n - 1);
        let start = spec_old_pal_start(s, n - 1);
        let cnt = spec_old_pal_count(s, o);
        if start <= id < start + cnt {
            Some(o + 2 + 3 * (id - start))
        } else {
            spec_old_pal_lookup(s, n - 1, id)
        }
    }
}

/// True when packet `k` lies inside `s` and its index range stays within
/// the 32-bit index space.
pub open spec fn spec_old_pal_packet_ok(s: Seq<u8>, k: int) -> bool {
    let o = spec_old_pal_off(s, k);
    &&& o + 2 <= s.len()
    &&& o + 2 + 3 * spec_old_pal_count(s, o) <= s.len()
    &&& spec_old_pal_start(s, k) <= 0xffffffff - 256
}

/// True when a legacy palette chunk payload is well-formed; a 6-bit chunk
/// additionally demands every color byte below 64.
pub open spec fn spec_old_pal_ok(s: Seq<u8>, six_bit: bool) -> bool {
    &&& s.len() >= 2
    &&& forall|k: int|
        #![trigger spec_old_pal_off(s, k)]
        0 <= k < crate::reader::le16(s, 0) ==> spec_old_pal_packet_ok(s, k)
    &&& (six_bit ==> forall|k: int, j: int|
        #![trigger s[spec_old_pal_off(s, k) + 2 + j]]
        0 <= k < crate::reader::le16(s, 0) && 0 <= j < 3 * spec_old_pal_count(
            s,
            spec_old_pal_off(s, k),
        ) ==> s[spec_old_pal_off(s, k) + 2 + j] < 64)
}

/// The channel value a stored color byte decodes to: itself, or its 6-bit
/// scaling.
pub open spec fn spec_old_pal_channel(b: u8, six_bit: bool) -> int {
    if six_bit {
        b * 4 + b / 16
    } else {
        b as int
    }
}

/// The color entry `e` matches the three bytes at `co` of a legacy chunk:
/// the decoded channels, alpha 255, no name.
pub open spec fn spec_old_pal_entry_matches(
    s: Seq<u8>,
    co: int,
    id: int,
    six_bit: bool,
    e: ColorPaletteEntry,
) -> bool {
    &&& e.spec_id() == id
    &&& e.spec_rgba() == (Rgba8 {
        r: spec_old_pal_channel(s[co], six_bit) as u8,
        g: spec_old_pal_channel(s[co + 1], six_bit) as u8,
        b: spec_old_pal_channel(s[co + 2], six_bit) as u8,
        a: 255,
    })
    &&& e.spec_name() is None
}

fn parse_old_packets(reader: &mut AseReader<'_>, six_bit: bool) -> (r: Result<
    ColorPalette,
    AsepriteParseError,
>)
    requires
        old(reader).wf(),
        old(reader).position() == 0,
    ensures
        final(reader).wf(),
        r is Ok <==> spec_old_pal_ok(old(reader).bytes(), six_bit),
        match r {
            Ok(p) => {
                let s = old(reader).bytes();
                let n = crate::reader::le16(s, 0) as int;
                &&& p.wf()
                &&& forall|id: u32|
                    p.spec_has(id) <==> spec_old_pal_lookup(s, n, id as int) is Some
                &&& forall|id: u32|
                    #![auto]
                    spec_old_pal_lookup(s, n, id as int) is Some ==> p.spec_color(id) is Some
                        && spec_old_pal_entry_matches(
                        s,
                        spec_old_pal_lookup(s, n, id as int)->0,
                        id as int,
                        six_bit,
                        p.spec_color(id)->0,
                    )
            },
            Err(e) => e is InvalidInput || e is IoError,
        },
{
    let ghost s = old(reader).bytes();
    let packet_count = match reader.word() {
        Ok(v) => v,
        Err(e) => { return Err(e) },
    };
    let ghost n = packet_count as int;
    let mut pal = ColorPalette::new();
    let mut skip: u32 = 0;
    let mut packet: u16 = 0;
    while packet < packet_count
        invariant
            s == reader.bytes(),
            s == old(reader).bytes(),
            s.len() >= 2,
            packet_count == crate::reader::le16(s, 0),
            n == packet_count as int,
            reader.wf(),
            pal.wf(),
            packet <= packet_count,
            reader.position() == spec_old_pal_off(s, packet as int),
            skip == spec_old_pal_skip(s, packet as int),
            forall|k: int|
                #![trigger spec_old_pal_off(s, k)]
                0 <= k < packet as int ==> spec_old_pal_packet_ok(s, k),
            six_bit ==> forall|k: int, j: int|
                #![trigger s[spec_old_pal_off(s, k) + 2 + j]]
                0 <= k < packet as int && 0 <= j < 3 * spec_old_pal_count(
                    s,
                    spec_old_pal_off(s, k),
                ) ==> s[spec_old_pal_off(s, k) + 2 + j] < 64,
            forall|id: u32|
                pal.spec_has(id) <==> spec_old_pal_lookup(s, packet as int, id as int) is Some,
            forall|id: u32|
                #![auto]
                spec_old_pal_lookup(s, packet as int, id as int) is Some ==> pal.spec_color(id)
                    is Some && spec_old_pal_entry_matches(
                    s,
                    spec_old_pal_lookup(s, packet as int, id as int)->0,
                    id as int,
                    six_bit,
                    pal.spec_color(id)->0,
                ),
        decreases packet_count - packet,
    {
        let ghost o = spec_old_pal_off(s, packet as int);
        let skip_add = match reader.byte() {
            Ok(v) => v,
            Err(e) => {
                proof {
                    assert(!spec_old_pal_packet_ok(s, packet as int));
                }
                return Err(e);
            },
        };
        if skip > u32::MAX - 256 - skip_add as u32 {
            proof {
                assert(!spec_old_pal_packet_ok(s, packet as int));
            }
            return Err(
                AsepriteParseError::InvalidInput("palette packet index overflow".to_owned()),
            );
        }
        skip = skip + skip_add as u32;
        let count_byte = match reader.byte() {
            Ok(v) => v,
            Err(e) => {
                proof {
                    assert(!spec_old_pal_packet_ok(s, packet as int));
                }
                return Err(e);
            },
        };
        let count: u32 = if count_byte == 0 {
            256
        } else {
            count_byte as u32
        };
        let end: u32 = skip + count;
        let mut id: u32 = skip;
        while id < end
            invariant
                s == reader.bytes(),
                s == old(reader).bytes(),
                s.len() >= 2,
                reader.wf(),
                pal.wf(),
                (packet as int) < n,
                n == crate::reader::le16(s, 0),
                o == spec_old_pal_off(s, packet as int),
                o + 2 <= s.len(),
                skip == spec_old_pal_start(s, packet as int),
                count == spec_old_pal_count(s, o),
                end == skip + count,
                skip <= id <= end,
                end <= 0xffffffff,
                reader.position() == o + 2 + 3 * (id - skip),
                six_bit ==> forall|j: int|
                    #![trigger s[o + 2 + j]]
                    0 <= j < 3 * (id - skip) ==> s[o + 2 + j] < 64,
                forall|x: u32|
                    pal.spec_has(x) <==> (spec_old_pal_lookup(s, packet as int, x as int) is Some
                        || skip <= x < id),
                forall|x: u32|
                    #![auto]
                    skip <= x < id ==> pal.spec_color(x) is Some && spec_old_pal_entry_matches(
                        s,
                        o + 2 + 3 * (x - skip),
                        x as int,
                        six_bit,
                        pal.spec_color(x)->0,
                    ),
                forall|x: u32|
                    #![auto]
                    !(skip <= x < id) && spec_old_pal_lookup(s, packet as int, x as int) is Some
                        ==> pal.spec_color(x) is Some && spec_old_pal_entry_matches(
                        s,
                        spec_old_pal_lookup(s, packet as int, x as int)->0,
                        x as int,
                        six_bit,
                        pal.spec_color(x)->0,
                    ),
            decreases end - id,
        {
            let red0 = match reader.byte() {
                Ok(v) => v,
                Err(e) => {
                    proof {
                        assert(!spec_old_pal_packet_ok(s, packet as int));
                    }
                    return Err(e);
                },
            };
            let green0 = match reader.byte() {
                Ok(v) => v,
                Err(e) => {
                    proof {
                        assert(!spec_old_pal_packet_ok(s, packet as int));
                    }
                    return Err(e);
                },
            };
            let blue0 = match reader.byte() {
                Ok(v) => v,
                Err(e) => {
                    proof {
                        assert(!spec_old_pal_packet_ok(s, packet as int));
                    }
                    return Err(e);
                },
            };
            let red: u8;
            let green: u8;
            let blue: u8;
            if six_bit {
                red = match scale_6bit_to_8bit(red0) {
                    Ok(v) => v,
                    Err(e) => {
                        proof {
                            assert(s[o + 2 + 3 * (id - skip)] >= 64);
                        }
                        return Err(e);
                    },
                };
                green = match scale_6bit_to_8bit(green0) {
                    Ok(v) => v,
                    Err(e) => {
                        proof {
                            assert(s[o + 2 + (3 * (id - skip) + 1)] >= 64);
                        }
                        return Err(e);
                    },
                };
                blue = match scale_6bit_to_8bit(blue0) {
                    Ok(v) => v,
                    Err(e) => {
                        proof {
                            assert(s[o + 2 + (3 * (id - skip) + 2)] >= 64);
                        }
                        return Err(e);
                    },
                };
            } else {
                red = red0;
                green = green0;
                blue = blue0;
            }
            let ghost prev = pal;
            pal.insert(
                ColorPaletteEntry::new(id, Rgba8 { r: red, g: green, b: blue, a: 255 }, None),
            );
            proof {
                assert forall|x: u32|
                    pal.spec_has(x) <==> (spec_old_pal_lookup(s, packet as int, x as int) is Some
                        || skip <= x < id + 1) by {
                    if x != id {
                        assert(pal.spec_color(x) == prev.spec_color(x));
                        if pal.spec_has(x) {
                            assert(pal.spec_color(x) is Some);
                            assert(prev.spec_has(x));
                        }
                        if prev.spec_has(x) {
                            assert(prev.spec_color(x) is Some);
                            assert(pal.spec_has(x));
                        }
                    } else {
                        assert(pal.spec_has(x));
                    }
                }
            }
            id = id + 1;
        }
        proof {
            assert(reader.position() == spec_old_pal_off(s, packet as int + 1));
            assert(spec_old_pal_packet_ok(s, packet as int));
            assert forall|x: u32|
                pal.spec_has(x) <==> spec_old_pal_lookup(s, packet as int + 1, x as int)
                is Some by {}
            assert forall|x: u32|
                #![auto]
                spec_old_pal_lookup(s, packet as int + 1, x as int) is Some implies pal.spec_color(
                x,
            ) is Some && spec_old_pal_entry_matches(
                s,
                spec_old_pal_lookup(s, packet as int + 1, x as int)->0,
                x as int,
                six_bit,
                pal.spec_color(x)->0,
            ) by {
                if skip <= x as int && (x as int) < skip as int + count as int {
                    assert(spec_old_pal_lookup(s, packet as int + 1, x as int) == Some(
                        o + 2 + 3 * (x as int - skip as int),
                    ));
                } else {
                    assert(spec_old_pal_lookup(s, packet as int + 1, x as int)
                        == spec_old_pal_lookup(s, packet as int, x as int));
                }
            }
        }
        packet = packet + 1;
    }
    Ok(pal)
}

/// Decode a legacy palette chunk with full 8-bit color packets.
pub fn parse_old_chunk_04(data: &[u8]) -> (r: Result<ColorPalette, AsepriteParseError>)
    ensures
        match r {
            Ok(p) => p.wf(),
            Err(e) => e is InvalidInput || e is IoError,
        },
{
    let mut reader = AseReader::new(data);
    parse_old_packets(&mut reader, false)
}

/// Decode a legacy palette chunk with 6-bit color packets, scaling each
/// value to 8 bits.
pub fn parse_old_chunk_11(data: &[u8]) -> (r: Result<ColorPalette, AsepriteParseError>)
    ensures
        match r {
            Ok(p) => p.wf(),
            Err(e) => e is InvalidInput || e is IoError,
        },
{
    let mut reader = AseReader::new(data);
    parse_old_packets(&mut reader, true)
}

} // verus!
