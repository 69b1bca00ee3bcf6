//! External-file references: names of files that palettes or tilesets may
//! point at.

use crate::error::AsepriteParseError;
use crate::reader::AseReader;
use vstd::prelude::*;

verus! {

/// Unique identifier of a reference to an [`ExternalFile`].
#[derive(Debug, Clone, Copy, PartialEq, Eq, Structural)]
pub struct ExternalFileId(pub u32);

impl ExternalFileId {
    /// The raw id value.
    pub open spec fn spec_value(&self) -> u32 {
        self.0
    }

    /// Wrap a raw id value.
    pub fn new(id: u32) -> (r: ExternalFileId)
        ensures
            r.spec_value() == id,
    {
        ExternalFileId(id)
    }

    /// A reference to the underlying raw value.
    pub fn value(&self) -> (r: &u32)
        ensures
            r == self.spec_value(),
    {
        &self.0
    }
}

/// An external file: an id and a file name.
#[derive(Debug)]
pub struct ExternalFile {
    id: ExternalFileId,
    name: String,
}

impl ExternalFile {
    /// The reference's id.
    pub closed spec fn spec_id(&self) -> ExternalFileId {
        self.id
    }

    /// The referenced file name.
    pub closed spec fn spec_name(&self) -> Seq<char> {
        self.name@
    }

    /// Build a reference from its parts.
    pub fn new(id: ExternalFileId, name: String) -> (r: ExternalFile)
        ensures
            r.spec_id() == id,
            r.spec_name() == name@,
    {
        ExternalFile { id, name }
    }

    /// The reference's id.
    pub fn id(&self) -> (r: &ExternalFileId)
        ensures
            r == self.spec_id(),
    {
        &self.id
    }

    /// The referenced file name.
    pub fn name(&self) -> (r: &str)
        ensures
            r@ == self.spec_name(),
    {
        self.name.as_str()
    }

    /// Decode an external-files chunk: an entry count and 8 reserved bytes,
    /// then that many id/name records. Succeeds exactly on a well-formed
    /// payload; every record's id and name are tied to its bytes.
    pub fn parse_chunk(data: &[u8]) -> (r: Result<Vec<ExternalFile>, AsepriteParseError>)
        ensures
            r is Ok <==> spec_ext_chunk_ok(data@),
            match r {
                Ok(v) => {
                    &&& v@.len() == crate::reader::le32(data@, 0)
                    &&& forall|k: int|
                        #![trigger spec_ext_off(data@, k)]
                        0 <= k < v@.len() ==> v@[k].spec_id() == ExternalFileId(
                            crate::reader::le32(data@, spec_ext_off(data@, k)),
                        ) && v@[k].spec_name() == crate::reader::spec_string_at(
                            data@,
                            spec_ext_off(data@, k) + 12,
                        )
                },
                Err(e) => e is InvalidInput || e is IoError,
            },
    {
        let ghost s = data@;
        let mut reader = AseReader::new(data);
        let entry_ct = match reader.dword() {
            Ok(v) => v,
            Err(e) => { return Err(e) },
        };
        match reader.skip_reserved(8) {
            Ok(_) => (),
            Err(e) => { return Err(e) },
        }
        let mut results: Vec<ExternalFile> = Vec::new();
        let mut i: u32 = 0;
        while i < entry_ct
            invariant
                s == data@,
                s.len() >= 12,
                entry_ct == crate::reader::le32(s, 0),
                reader.wf(),
                reader.bytes() == s,
                i <= entry_ct,
                results@.len() == i,
                reader.position() == spec_ext_off(s, i as int),
                forall|k: int|
                    #![trigger spec_ext_off(s, k)]
                    0 <= k < i as int ==> spec_ext_entry_ok(s, spec_ext_off(s, k)),
                forall|k: int|
                    #![trigger spec_ext_off(s, k)]
                    0 <= k < i as int ==> results@[k].spec_id() == ExternalFileId(
                        crate::reader::le32(s, spec_ext_off(s, k)),
                    ) && results@[k].spec_name() == crate::reader::spec_string_at(
                        s,
                        spec_ext_off(s, k) + 12,
                    ),
            decreases entry_ct - i,
        {
            let ghost o = spec_ext_off(s, i as int);
            let id = match reader.dword() {
                Ok(v) => ExternalFileId::new(v),
                Err(e) => {
                    proof {
                        assert(!spec_ext_entry_ok(s, o));
                    }
                    return Err(e);
                },
            };
            match reader.skip_reserved(8) {
                Ok(_) => (),
                Err(e) => {
                    proof {
                        assert(!spec_ext_entry_ok(s, o));
                    }
                    return Err(e);
                },
            }
            let name = match reader.string() {
                Ok(v) => v,
                Err(e) => {
                    proof {
                        assert(!crate::reader::spec_string_ok(s, o + 12));
                        assert(!spec_ext_entry_ok(s, o));
                    }
                    return Err(e);
                },
            };
            results.push(ExternalFile::new(id, name));
            proof {
                assert(spec_ext_entry_ok(s, o));
                assert(reader.position() == spec_ext_off(s, i as int + 1));
            }
            i = i + 1;
        }
        Ok(results)
    }
}

/// The payload offset of record `k` of an external-files chunk: records
/// follow the 4-byte count and 8 reserved bytes, each holding an id dword,
/// 8 reserved bytes and a name string.
pub open spec fn spec_ext_off(s: Seq<u8>, k: int) -> int
    decreases k,
{
    if k <= 0 {
        12
    } else {
        crate::reader::spec_string_end(s, spec_ext_off(s, k - 1) + 12)
    }
}

/// True when the record at offset `o` lies wholly inside `s`.
pub open spec fn spec_ext_entry_ok(s: Seq<u8>, o: int) -> bool {
    &&& o + 12 <= s.len()
    &&& crate::reader::spec_string_ok(s, o + 12)
}

/// True when an external-files chunk payload is well-formed.
pub open spec fn spec_ext_chunk_ok(s: Seq<u8>) -> bool {
    &&& s.len() >= 12
    &&& forall|k: int|
        #![trigger spec_ext_off(s, k)]
        0 <= k < crate::reader::le32(s, 0) ==> spec_ext_entry_ok(s, spec_ext_off(s, k))
}

/// The external files of a document, addressable by id.
#[derive(Debug)]
pub struct ExternalFilesById {
    entries: Vec<ExternalFile>,
}

impl ExternalFilesById {
    /// The stored references.
    pub closed spec fn spec_entries(&self) -> Seq<ExternalFile> {
        self.entries@
    }

    /// Ids are unique.
    pub open spec fn wf(&self) -> bool {
        forall|i: int, j: int|
            0 <= i < j < self.spec_entries().len() ==> self.spec_entries()[i].spec_id()
                != self.spec_entries()[j].spec_id()
    }

    /// Whether an entry with the given id is present.
    pub open spec fn spec_has(&self, id: ExternalFileId) -> bool {
        exists|i: int|
            0 <= i < self.spec_entries().len() && self.spec_entries()[i].spec_id() == id
    }

    /// The entry with the given id, when present.
    pub open spec fn spec_get(&self, id: ExternalFileId) -> Option<ExternalFile> {
        spec_table_get(self.spec_entries(), id)
    }

    /// An empty table.
    pub fn new() -> (r: ExternalFilesById)
        ensures
            r.wf(),
            r.spec_entries().len() == 0,
    {
        ExternalFilesById { entries: Vec::new() }
    }

    /// Register a reference: a later `add` with an equal id replaces the
    /// earlier entry; every other entry is untouched.
    pub fn add(&mut self, external_file: ExternalFile)
        requires
            old(self).wf(),
        ensures
            final(self).wf(),
            final(self).spec_get(external_file.spec_id()) == Some(external_file),
            forall|x: ExternalFileId|
                x != external_file.spec_id() ==> final(self).spec_get(x) == old(self).spec_get(x),
    {
        let ghost ef = external_file;
        let mut i: usize = 0;
        while i < self.entries.len()
            invariant
                self.wf(),
                external_file == ef,
                self.spec_entries() == old(self).spec_entries(),
                i <= self.spec_entries().len(),
                forall|j: int|
                    0 <= j < i ==> self.spec_entries()[j].spec_id() != external_file.spec_id(),
            decreases self.spec_entries().len() - i,
        {
            if self.entries[i].id().0 == external_file.id().0 {
                let ghost olds = self.spec_entries();
                self.entries.set(i, external_file);
                proof {
                    lemma_table_update(olds, self.spec_entries(), ef, i as int, true);
                }
                return ;
            }
            i = i + 1;
        }
        let ghost olds = self.spec_entries();
        self.entries.push(external_file);
        proof {
            lemma_table_update(olds, self.spec_entries(), ef, olds.len() as int, false);
        }
    }

    /// The stored references, in insertion order.
    pub fn map(&self) -> (r: &Vec<ExternalFile>)
        ensures
            r@ == self.spec_entries(),
    {
        &self.entries
    }

    /// Look up a reference by id: the entry stored under that id, when one
    /// was added.
    pub fn get(&self, id: &ExternalFileId) -> (r: Option<&ExternalFile>)
        requires
            self.wf(),
        ensures
            match r {
                Some(e) => self.spec_get(*id) == Some(*e),
                None => !self.spec_has(*id),
            },
    {
        let mut i: usize = 0;
        while i < self.entries.len()
            invariant
                self.wf(),
                i <= self.spec_entries().len(),
                forall|j: int| 0 <= j < i ==> self.spec_entries()[j].spec_id() != *id,
            decreases self.spec_entries().len() - i,
        {
            if self.entries[i].id().0 == id.0 {
                proof {
                    assert(self.spec_entries()[i as int].spec_id() == *id);
                    assert(self.spec_has(*id));
                    let c = choose|k: int|
                        0 <= k < self.spec_entries().len() && self.spec_entries()[k].spec_id()
                            == *id;
                    if c < i {
                        assert(self.spec_entries()[c].spec_id()
                            != self.spec_entries()[i as int].spec_id());
                    } else if c > i {
                        assert(self.spec_entries()[i as int].spec_id()
                            != self.spec_entries()[c].spec_id());
                    }
                }
                return Some(&self.entries[i]);
            }
            i = i + 1;
        }
        None
    }
}

/// After replacing the entry at `i` (or pushing at the end), the table holds
/// the new entry under its id and every other id resolves as before.
proof fn lemma_table_update(
    olds: Seq<ExternalFile>,
    news: Seq<ExternalFile>,
    ef: ExternalFile,
    i: int,
    replaced: bool,
)
    requires
        forall|a: int, b: int| 0 <= a < b < olds.len() ==> olds[a].spec_id() != olds[b].spec_id(),
        forall|j: int| 0 <= j < i ==> olds[j].spec_id() != ef.spec_id(),
        replaced ==> 0 <= i < olds.len() && olds[i].spec_id() == ef.spec_id() && news == olds.update(
            i,
            ef,
        ),
        !replaced ==> i == olds.len() && news == olds.push(ef),
    ensures
        forall|a: int, b: int| 0 <= a < b < news.len() ==> news[a].spec_id() != news[b].spec_id(),
        spec_table_get(news, ef.spec_id()) == Some(ef),
        forall|x: ExternalFileId|
            x != ef.spec_id() ==> spec_table_get(news, x) == spec_table_get(olds, x),
{
    assert(news[i] == ef);
    assert forall|a: int, b: int| 0 <= a < b < news.len() implies news[a].spec_id()
        != news[b].spec_id() by {
        if a != i && b != i {
            assert(olds[a].spec_id() != olds[b].spec_id());
        } else if b == i && replaced {
            assert(olds[a].spec_id() != olds[b].spec_id());
        }
    }
    assert(spec_table_get(news, ef.spec_id()) == Some(ef)) by {
        let c = choose|k: int| 0 <= k < news.len() && news[k].spec_id() == ef.spec_id();
        if c != i {
            assert(news[c].spec_id() != news[i].spec_id());
        }
    }
    assert forall|x: ExternalFileId| x != ef.spec_id() implies spec_table_get(news, x)
        == spec_table_get(olds, x) by {
        if exists|k: int| 0 <= k < news.len() && news[k].spec_id() == x {
            let c = choose|k: int| 0 <= k < news.len() && news[k].spec_id() == x;
            assert(c != i);
            assert(olds[c] == news[c]);
            let c2 = choose|k: int| 0 <= k < olds.len() && olds[k].spec_id() == x;
            if c2 != c {
                if c2 == i && replaced {
                    assert(olds[c2].spec_id() == ef.spec_id());
                } else {
                    assert(news[c2] == olds[c2]);
                    if c2 < c {
                        assert(news[c2].spec_id() != news[c].spec_id());
                    } else {
                        assert(news[c].spec_id() != news[c2].spec_id());
                    }
                }
            }
        } else {
            if exists|k: int| 0 <= k < olds.len() && olds[k].spec_id() == x {
                let c2 = choose|k: int| 0 <= k < olds.len() && olds[k].spec_id() == x;
                if c2 == i && replaced {
                    assert(olds[c2].spec_id() == ef.spec_id());
                } else {
                    assert(news[c2] == olds[c2]);
                    assert(news[c2].spec_id() == x);
                }
            }
        }
    }
}

/// The entry of `s` carrying the given id, when one exists.
pub open spec fn spec_table_get(s: Seq<ExternalFile>, id: ExternalFileId) -> Option<ExternalFile> {
    if exists|i: int| 0 <= i < s.len() && s[i].spec_id() == id {
        Some(s[choose|i: int| 0 <= i < s.len() && s[i].spec_id() == id])
    } else {
        None
    }
}

} // verus!
