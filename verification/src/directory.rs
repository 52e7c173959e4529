//! The central directory: ordered file entries and their deterministic
//! binary encoding.

use vstd::prelude::*;
use crate::le::{
    copy_range, push_u32_le, push_u64_le, read_u32_le, read_u64_le, u32_from_le_bytes,
    u32_le_bytes, u64_from_le_bytes, u64_le_bytes, lemma_u32_le_roundtrip, lemma_u64_le_roundtrip,
};

verus! {

/// Fixed-size portion of an encoded entry: five 64-bit fields and one 32-bit
/// field after the path.
pub const ENTRY_FIXED_SIZE: usize = 44;

/// Mathematical model of a file entry.
#[verifier::ext_equal]
pub ghost struct FileEntryV {
    pub path: Seq<u8>,
    pub original_size: u64,
    pub compressed_size: u64,
    pub encrypted_size: u64,
    pub modified_time: u64,
    pub attributes: u32,
    pub data_offset: u64,
}

/// File entry in the central directory.
pub struct FileEntry {
    /// File path within the archive, as bytes.
    pub path: Vec<u8>,
    /// Original (uncompressed) size.
    pub original_size: u64,
    /// Compressed size.
    pub compressed_size: u64,
    /// Encrypted size (compressed size plus encryption overhead).
    pub encrypted_size: u64,
    /// Modification time (seconds since the epoch).
    pub modified_time: u64,
    /// File attributes.
    pub attributes: u32,
    /// Offset of the encrypted data in the payload region.
    pub data_offset: u64,
}

impl View for FileEntry {
    type V = FileEntryV;

    open spec fn view(&self) -> FileEntryV {
        FileEntryV {
            path: self.path@,
            original_size: self.original_size,
            compressed_size: self.compressed_size,
            encrypted_size: self.encrypted_size,
            modified_time: self.modified_time,
            attributes: self.attributes,
            data_offset: self.data_offset,
        }
    }
}

impl FileEntryV {
    /// The path fits behind its 32-bit length prefix.
    pub open spec fn wf(self) -> bool {
        self.path.len() <= u32::MAX
    }
}

/// The deterministic encoding of one entry.
pub open spec fn entry_bytes(e: FileEntryV) -> Seq<u8> {
    u32_le_bytes(e.path.len() as u32) + e.path + u64_le_bytes(e.original_size) + u64_le_bytes(
        e.compressed_size,
    ) + u64_le_bytes(e.encrypted_size) + u64_le_bytes(e.modified_time) + u32_le_bytes(e.attributes)
        + u64_le_bytes(e.data_offset)
}

/// The concatenated encodings of a sequence of entries.
pub open spec fn entries_bytes(s: Seq<FileEntryV>) -> Seq<u8>
    decreases s.len(),
{
    if s.len() == 0 {
        Seq::empty()
    } else {
        entry_bytes(s[0]) + entries_bytes(s.drop_first())
    }
}

/// Every entry fits its length prefix, and the count fits 32 bits.
pub open spec fn entries_wf(s: Seq<FileEntryV>) -> bool {
    &&& s.len() <= u32::MAX
    &&& forall|i: int| 0 <= i < s.len() ==> (#[trigger] s[i]).wf()
}

/// The deterministic encoding of a directory: a 32-bit entry count, then the
/// entries in order.
pub open spec fn directory_bytes(s: Seq<FileEntryV>) -> Seq<u8> {
    u32_le_bytes(s.len() as u32) + entries_bytes(s)
}

/// The first entry denoted by a prefix of `b`, with the number of bytes it
/// occupies, if well-formed.
pub open spec fn parse_entry_spec(b: Seq<u8>) -> Option<(FileEntryV, int)> {
    if b.len() < 4 {
        None
    } else {
        let plen = u32_from_le_bytes(b.subrange(0, 4)) as int;
        if b.len() < 4 + plen + ENTRY_FIXED_SIZE {
            None
        } else {
            let p = 4 + plen;
            Some(
                (
                    FileEntryV {
                        path: b.subrange(4, p),
                        original_size: u64_from_le_bytes(b.subrange(p, p + 8)),
                        compressed_size: u64_from_le_bytes(b.subrange(p + 8, p + 16)),
                        encrypted_size: u64_from_le_bytes(b.subrange(p + 16, p + 24)),
                        modified_time: u64_from_le_bytes(b.subrange(p + 24, p + 32)),
                        attributes: u32_from_le_bytes(b.subrange(p + 32, p + 36)),
                        data_offset: u64_from_le_bytes(b.subrange(p + 36, p + 44)),
                    },
                    p + ENTRY_FIXED_SIZE,
                ),
            )
        }
    }
}

/// The `n` entries denoted by `b`, if `b` is exactly their encoding.
pub open spec fn parse_entries_spec(b: Seq<u8>, n: nat) -> Option<Seq<FileEntryV>>
    decreases n,
{
    if n == 0 {
        if b.len() == 0 {
            Some(Seq::empty())
        } else {
            None
        }
    } else {
        match parse_entry_spec(b) {
            Option::None => None,
            Option::Some((e, used)) => match parse_entries_spec(
                b.subrange(used, b.len() as int),
                (n - 1) as nat,
            ) {
                Option::None => None,
                Option::Some(rest) => Some(seq![e] + rest),
            },
        }
    }
}

/// The directory denoted by `b`, if `b` is exactly a directory encoding.
pub open spec fn parse_directory_spec(b: Seq<u8>) -> Option<Seq<FileEntryV>> {
    if b.len() < 4 {
        None
    } else {
        parse_entries_spec(b.subrange(4, b.len() as int), u32_from_le_bytes(b.subrange(0, 4)) as nat)
    }
}

/// An entry encoding parses back to the entry, also with arbitrary bytes
/// appended after it.
pub proof fn lemma_entry_roundtrip(e: FileEntryV, tail: Seq<u8>)
    requires
        e.wf(),
    ensures
        parse_entry_spec(entry_bytes(e) + tail) == Some(
            (e, entry_bytes(e).len() as int),
        ),
{
    let b = entry_bytes(e) + tail;
    let plen = e.path.len() as int;
    let p = 4 + plen;
    assert(b.subrange(0, 4) =~= u32_le_bytes(e.path.len() as u32));
    lemma_u32_le_roundtrip(e.path.len() as u32);
    assert(b.len() >= 4 + plen + ENTRY_FIXED_SIZE);
    assert(b.subrange(4, p) =~= e.path);
    assert(b.subrange(p, p + 8) =~= u64_le_bytes(e.original_size));
    assert(b.subrange(p + 8, p + 16) =~= u64_le_bytes(e.compressed_size));
    assert(b.subrange(p + 16, p + 24) =~= u64_le_bytes(e.encrypted_size));
    assert(b.subrange(p + 24, p + 32) =~= u64_le_bytes(e.modified_time));
    assert(b.subrange(p + 32, p + 36) =~= u32_le_bytes(e.attributes));
    assert(b.subrange(p + 36, p + 44) =~= u64_le_bytes(e.data_offset));
    lemma_u64_le_roundtrip(e.original_size);
    lemma_u64_le_roundtrip(e.compressed_size);
    lemma_u64_le_roundtrip(e.encrypted_size);
    lemma_u64_le_roundtrip(e.modified_time);
    lemma_u32_le_roundtrip(e.attributes);
    lemma_u64_le_roundtrip(e.data_offset);
    assert(parse_entry_spec(b) is Some);
    let pr = parse_entry_spec(b)->0;
    assert(pr.0 =~= e);
    assert(entry_bytes(e).len() == p + ENTRY_FIXED_SIZE);
}

/// The concatenated encodings of well-formed entries parse back to the
/// entries.
pub proof fn lemma_entries_roundtrip(s: Seq<FileEntryV>)
    requires
        forall|i: int| 0 <= i < s.len() ==> (#[trigger] s[i]).wf(),
    ensures
        parse_entries_spec(entries_bytes(s), s.len()) == Some(s),
    decreases s.len(),
{
    if s.len() == 0 {
        assert(entries_bytes(s).len() == 0);
        assert(parse_entries_spec(entries_bytes(s), 0) == Some(Seq::<FileEntryV>::empty()));
        assert(s =~= Seq::<FileEntryV>::empty());
    } else {
        let e = s[0];
        let rest = s.drop_first();
        let b = entries_bytes(s);
        assert(b == entry_bytes(e) + entries_bytes(rest));
        lemma_entry_roundtrip(e, entries_bytes(rest));
        let used = entry_bytes(e).len() as int;
        assert(b.subrange(used, b.len() as int) =~= entries_bytes(rest));
        lemma_entries_roundtrip(rest);
        assert(parse_entries_spec(b, s.len()) == Some(seq![e] + rest));
        assert(seq![e] + rest =~= s);
    }
}

/// A directory encoding parses back to its entries.
pub proof fn lemma_directory_roundtrip(s: Seq<FileEntryV>)
    requires
        entries_wf(s),
    ensures
        parse_directory_spec(directory_bytes(s)) == Some(s),
{
    let b = directory_bytes(s);
    assert(b.subrange(0, 4) =~= u32_le_bytes(s.len() as u32));
    lemma_u32_le_roundtrip(s.len() as u32);
    assert(b.subrange(4, b.len() as int) =~= entries_bytes(s));
    lemma_entries_roundtrip(s);
}

/// The first entry of a directory, by path, if any: entries earlier in the
/// sequence shadow later ones.
pub open spec fn find_entry_spec(s: Seq<FileEntryV>, path: Seq<u8>) -> Option<FileEntryV>
    decreases s.len(),
{
    if s.len() == 0 {
        None
    } else if s[0].path == path {
        Some(s[0])
    } else {
        find_entry_spec(s.drop_first(), path)
    }
}

/// Central directory: the ordered file entries of an archive.
pub struct CentralDirectory {
    /// File entries, in insertion order.
    pub entries: Vec<FileEntry>,
}

impl View for CentralDirectory {
    type V = Seq<FileEntryV>;

    open spec fn view(&self) -> Seq<FileEntryV> {
        self.entries@.map_values(|e: FileEntry| e@)
    }
}

impl CentralDirectory {
    /// Creates an empty central directory.
    pub fn new() -> (r: Self)
        ensures
            r@ == Seq::<FileEntryV>::empty(),
    {
        let r = CentralDirectory { entries: Vec::new() };
        proof {
            assert(r@ =~= Seq::<FileEntryV>::empty());
        }
        r
    }

    /// Appends a file entry.
    pub fn add_entry(&mut self, entry: FileEntry)
        ensures
            final(self)@ == old(self)@ + seq![entry@],
    {
        self.entries.push(entry);
        proof {
            assert(self@ =~= old(self)@ + seq![entry@]);
        }
    }

    /// Finds the first entry with the given path.
    pub fn find_entry(&self, path: &Vec<u8>) -> (r: Option<&FileEntry>)
        ensures
            match r {
                Option::Some(e) => find_entry_spec(self@, path@) == Some(e@),
                Option::None => find_entry_spec(self@, path@) is None,
            },
    {
        let n = self.entries.len();
        proof {
            assert(self@.subrange(0, n as int) =~= self@);
        }
        let mut i: usize = 0;
        while i < n
            invariant
                n == self.entries@.len(),
                i <= n,
                find_entry_spec(self@, path@) == find_entry_spec(
                    self@.subrange(i as int, n as int),
                    path@,
                ),
            decreases n - i,
        {
            proof {
                let tail = self@.subrange(i as int, n as int);
                assert(tail[0] == self@[i as int]);
                assert(tail.drop_first() =~= self@.subrange(i as int + 1, n as int));
            }
            if eq_bytes(&self.entries[i].path, path) {
                return Some(&self.entries[i]);
            }
            i = i + 1;
        }
        proof {
            assert(self@.subrange(n as int, n as int) =~= Seq::<FileEntryV>::empty());
        }
        None
    }

    /// All file entries, in insertion order.
    pub fn entries(&self) -> (r: &Vec<FileEntry>)
        ensures
            r@.map_values(|e: FileEntry| e@) == self@,
    {
        &self.entries
    }

    /// Serializes the directory into its deterministic encoding.
    pub fn serialize(&self) -> (r: Vec<u8>)
        requires
            entries_wf(self@),
        ensures
            r@ == directory_bytes(self@),
    {
        let n = self.entries.len();
        let mut out: Vec<u8> = Vec::new();
        push_u32_le(&mut out, n as u32);
        let mut i: usize = 0;
        while i < n
            invariant
                n == self.entries@.len(),
                i <= n,
                entries_wf(self@),
                out@ == u32_le_bytes(n as u32) + entries_bytes(self@.subrange(0, i as int)),
            decreases n - i,
        {
            proof {
                assert(self@[i as int] == self.entries@[i as int]@);
                assert(self@[i as int].wf());
            }
            serialize_entry(&self.entries[i], &mut out);
            proof {
                lemma_entries_bytes_snoc(self@.subrange(0, i as int + 1));
                assert(self@.subrange(0, i as int + 1).drop_last() =~= self@.subrange(0, i as int));
                assert(self@.subrange(0, i as int + 1).last() == self@[i as int]);
            }
            i = i + 1;
        }
        proof {
            assert(self@.subrange(0, n as int) =~= self@);
        }
        out
    }
}

/// Splitting the last entry off a non-empty sequence splits its encoding.
pub proof fn lemma_entries_bytes_snoc(s: Seq<FileEntryV>)
    requires
        s.len() > 0,
    ensures
        entries_bytes(s) == entries_bytes(s.drop_last()) + entry_bytes(s.last()),
    decreases s.len(),
{
    if s.len() == 1 {
        assert(s.drop_first() =~= Seq::<FileEntryV>::empty());
        assert(s.drop_last() =~= Seq::<FileEntryV>::empty());
        assert(entries_bytes(s) =~= entry_bytes(s[0]) + entries_bytes(s.drop_first()));
        assert(entries_bytes(s) =~= entries_bytes(s.drop_last()) + entry_bytes(s.last()));
    } else {
        let rest = s.drop_first();
        lemma_entries_bytes_snoc(rest);
        assert(rest.drop_last() =~= s.drop_last().drop_first());
        assert(rest.last() == s.last());
        assert(entries_bytes(s.drop_last()) == entry_bytes(s[0]) + entries_bytes(
            s.drop_last().drop_first(),
        ));
        assert(entries_bytes(s) =~= entries_bytes(s.drop_last()) + entry_bytes(s.last()));
    }
}

/// Compares two byte vectors for equality. Equal-length inputs are compared
/// in constant time: every byte is visited and the difference accumulated,
/// with no data-dependent branch.
pub fn eq_bytes(a: &Vec<u8>, b: &Vec<u8>) -> (r: bool)
    ensures
        r == (a@ == b@),
{
    let n = a.len();
    if n != b.len() {
        proof {
            assert(a@.len() != b@.len());
        }
        return false;
    }
    let mut diff: u8 = 0;
    let mut i: usize = 0;
    while i < n
        invariant
            n == a@.len(),
            n == b@.len(),
            i <= n,
            diff == 0 <==> (forall|j: int| 0 <= j < i ==> a@[j] == b@[j]),
        decreases n - i,
    {
        let x = a[i] ^ b[i];
        proof {
            let d = diff;
            assert((d | x) == 0 <==> d == 0 && x == 0) by (bit_vector);
            let ai = a@[i as int];
            let bi = b@[i as int];
            assert((ai ^ bi) == 0 <==> ai == bi) by (bit_vector);
        }
        diff = diff | x;
        i = i + 1;
    }
    if diff == 0 {
        proof {
            assert(a@ =~= b@);
        }
        true
    } else {
        false
    }
}

/// Appends the encoding of one entry.
fn serialize_entry(e: &FileEntry, out: &mut Vec<u8>)
    requires
        e@.wf(),
    ensures
        final(out)@ == old(out)@ + entry_bytes(e@),
{
    push_u32_le(out, e.path.len() as u32);
    out.extend_from_slice(e.path.as_slice());
    push_u64_le(out, e.original_size);
    push_u64_le(out, e.compressed_size);
    push_u64_le(out, e.encrypted_size);
    push_u64_le(out, e.modified_time);
    push_u32_le(out, e.attributes);
    push_u64_le(out, e.data_offset);
    proof {
        assert(out@ =~= old(out)@ + entry_bytes(e@));
    }
}

/// An entry whose fields were read at `pos` in `d` is what `parse_entry_spec`
/// yields on the suffix of `d` starting at `pos`.
pub proof fn lemma_parse_entry_in_place(d: Seq<u8>, pos: int, e: FileEntryV)
    requires
        4 <= pos,
        pos + 4 <= d.len(),
        e.path.len() == u32_from_le_bytes(d.subrange(pos, pos + 4)),
        pos + 4 + e.path.len() + ENTRY_FIXED_SIZE <= d.len(),
        e.path == d.subrange(pos + 4, pos + 4 + e.path.len()),
        e.original_size == u64_from_le_bytes(
            d.subrange(pos + 4 + e.path.len(), pos + 4 + e.path.len() + 8),
        ),
        e.compressed_size == u64_from_le_bytes(
            d.subrange(pos + 4 + e.path.len() + 8, pos + 4 + e.path.len() + 16),
        ),
        e.encrypted_size == u64_from_le_bytes(
            d.subrange(pos + 4 + e.path.len() + 16, pos + 4 + e.path.len() + 24),
        ),
        e.modified_time == u64_from_le_bytes(
            d.subrange(pos + 4 + e.path.len() + 24, pos + 4 + e.path.len() + 32),
        ),
        e.attributes == u32_from_le_bytes(
            d.subrange(pos + 4 + e.path.len() + 32, pos + 4 + e.path.len() + 36),
        ),
        e.data_offset == u64_from_le_bytes(
            d.subrange(pos + 4 + e.path.len() + 36, pos + 4 + e.path.len() + 44),
        ),
    ensures
        parse_entry_spec(d.subrange(pos, d.len() as int)) == Some(
            (e, 4 + e.path.len() as int + ENTRY_FIXED_SIZE),
        ),
{
    let pre = d.subrange(pos, d.len() as int);
    let plen = e.path.len() as int;
    let q = pos + 4 + plen;
    assert(pre.subrange(0, 4) =~= d.subrange(pos, pos + 4));
    assert(pre.subrange(4, 4 + plen) =~= d.subrange(pos + 4, q));
    assert(pre.subrange(4 + plen, 4 + plen + 8) =~= d.subrange(q, q + 8));
    assert(pre.subrange(4 + plen + 8, 4 + plen + 16) =~= d.subrange(q + 8, q + 16));
    assert(pre.subrange(4 + plen + 16, 4 + plen + 24) =~= d.subrange(q + 16, q + 24));
    assert(pre.subrange(4 + plen + 24, 4 + plen + 32) =~= d.subrange(q + 24, q + 32));
    assert(pre.subrange(4 + plen + 32, 4 + plen + 36) =~= d.subrange(q + 32, q + 36));
    assert(pre.subrange(4 + plen + 36, 4 + plen + 44) =~= d.subrange(q + 36, q + 44));
    assert(parse_entry_spec(pre) is Some);
    let pr = parse_entry_spec(pre)->0;
    assert(pr.0 =~= e);
}

/// Parses a directory encoding.
#[verifier::rlimit(100)]
#[verifier::spinoff_prover]
pub fn parse_directory(data: &Vec<u8>) -> (r: Option<CentralDirectory>)
    ensures
        r is Some <==> parse_directory_spec(data@) is Some,
        r is Some ==> Some(r->0@) == parse_directory_spec(data@) && entries_wf(r->0@),
{
    let n = data.len();
    if n < 4 {
        return None;
    }
    let count = read_u32_le(data, 0);
    let ghost whole = data@.subrange(4, n as int);
    proof {
        assert(parse_directory_spec(data@) == parse_entries_spec(whole, count as nat));
    }
    let mut entries: Vec<FileEntry> = Vec::new();
    let mut pos: usize = 4;
    let mut i: u32 = 0;
    while i < count
        invariant
            n == data@.len(),
            4 <= pos <= n,
            i <= count,
            entries@.len() == i,
            forall|j: int|
                0 <= j < entries@.len() ==> (#[trigger] entries@[j])@.wf(),
            parse_entries_spec(whole, count as nat) == match parse_entries_spec(
                data@.subrange(pos as int, n as int),
                (count - i) as nat,
            ) {
                Option::None => None::<Seq<FileEntryV>>,
                Option::Some(rest) => Some(entries@.map_values(|e: FileEntry| e@) + rest),
            },
            whole == data@.subrange(4, n as int),
            parse_directory_spec(data@) == parse_entries_spec(whole, count as nat),
        decreases count - i,
    {
        let ghost pre = data@.subrange(pos as int, n as int);
        if n - pos < 4 {
            proof {
                assert(pre.len() < 4);
                assert(parse_entry_spec(pre) is None);
                assert(parse_entries_spec(pre, (count - i) as nat) is None);
            }
            return None;
        }
        let plen32 = read_u32_le(data, pos);
        proof {
            assert(pre.subrange(0, 4) =~= data@.subrange(pos as int, pos as int + 4));
        }
        if (plen32 as usize) > n - pos - 4 || n - pos - 4 - (plen32 as usize) < ENTRY_FIXED_SIZE {
            proof {
                assert(pre.len() < 4 + plen32 as int + ENTRY_FIXED_SIZE);
                assert(parse_entry_spec(pre) is None);
                assert(parse_entries_spec(pre, (count - i) as nat) is None);
            }
            return None;
        }
        let plen = plen32 as usize;
        let p = pos + 4;
        let q = p + plen;
        let entry = FileEntry {
            path: copy_range(data, p, plen),
            original_size: read_u64_le(data, q),
            compressed_size: read_u64_le(data, q + 8),
            encrypted_size: read_u64_le(data, q + 16),
            modified_time: read_u64_le(data, q + 24),
            attributes: read_u32_le(data, q + 32),
            data_offset: read_u64_le(data, q + 36),
        };
        proof {
            lemma_parse_entry_in_place(data@, pos as int, entry@);
            let used = 4 + plen as int + ENTRY_FIXED_SIZE;
            assert(pre.subrange(used, pre.len() as int) =~= data@.subrange(
                pos as int + used,
                n as int,
            ));
        }
        entries.push(entry);
        pos = pos + 4 + plen + ENTRY_FIXED_SIZE;
        i = i + 1;
        proof {
            assert(entries@.map_values(|e: FileEntry| e@) =~= entries@.drop_last().map_values(
                |e: FileEntry| e@,
            ) + seq![entries@.last()@]);
        }
    }
    if pos != n {
        proof {
            assert(data@.subrange(pos as int, n as int).len() > 0);
            assert(parse_entries_spec(data@.subrange(pos as int, n as int), 0) is None);
        }
        return None;
    }
    proof {
        assert(data@.subrange(pos as int, n as int).len() == 0);
        assert(parse_entries_spec(data@.subrange(pos as int, n as int), 0) == Some(
            Seq::<FileEntryV>::empty(),
        ));
        assert(entries@.map_values(|e: FileEntry| e@) + Seq::<FileEntryV>::empty() =~= entries@
            .map_values(|e: FileEntry| e@));
    }
    Some(CentralDirectory { entries })
}

} // verus!
