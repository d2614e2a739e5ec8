//! The binary partition table: a run of 32-byte records closed by an end
//! marker. The records are read and checked here; the table is then shown
//! to the partition-table parser of `esp-idf-part`, which has the last word.

use vstd::prelude::*;
use vstd::slice::*;
use crate::bytes::{le32, read_le32};
use crate::error::AssemblyError;
use crate::flash::FlashSize;
use esp_idf_part::PartitionTable as BinaryTable;

verus! {

/// The most entries that the binary form of a table has room for.
pub const MAX_ENTRIES: usize = 95;

/// One entry of a partition table.
#[derive(Debug)]
pub struct PartitionEntry {
    /// The sixteen bytes of the name field, padding included.
    pub name: Vec<u8>,
    pub kind: u8,
    pub subkind: u8,
    pub offset: u32,
    pub size: u32,
    pub encrypted: bool,
}

/// What an entry says, as mathematical values.
pub struct EntryModel {
    pub name: Seq<u8>,
    pub kind: u8,
    pub subkind: u8,
    pub offset: u32,
    pub size: u32,
    pub encrypted: bool,
}

impl View for PartitionEntry {
    type V = EntryModel;

    open spec fn view(&self) -> EntryModel {
        EntryModel {
            name: self.name@,
            kind: self.kind,
            subkind: self.subkind,
            offset: self.offset,
            size: self.size,
            encrypted: self.encrypted,
        }
    }
}

/// The models of a list of entries, in order.
pub open spec fn models(entries: Seq<PartitionEntry>) -> Seq<EntryModel> {
    entries.map_values(|e: PartitionEntry| e@)
}

/// The record with index `i`.
pub open spec fn record(b: Seq<u8>, i: int) -> Seq<u8> {
    b.subrange(32 * i, 32 * i + 32)
}

/// The record that closes a table: thirty-two bytes of 0xFF.
pub open spec fn is_end_marker(r: Seq<u8>) -> bool {
    forall|k: int| 0 <= k < 32 ==> r[k] == 0xFF
}

/// A record that carries the digest of the entries before it.
pub open spec fn is_digest_line(r: Seq<u8>) -> bool {
    &&& r[0] == 0xEB
    &&& r[1] == 0xEB
    &&& forall|k: int| 2 <= k < 16 ==> r[k] == 0xFF
}

/// Whether a subtype is one that the type defines. Application partitions
/// are factory, OTA slots or test; data partitions have their own list;
/// custom types take any subtype.
pub open spec fn subkind_known(kind: u8, subkind: u8) -> bool {
    if kind == 0 {
        subkind == 0 || 0x10 <= subkind <= 0x20
    } else if kind == 1 {
        subkind <= 6 || 0x80 <= subkind <= 0x83
    } else {
        true
    }
}

/// A record that holds an entry: it starts with the magic bytes and its
/// subtype is known.
pub open spec fn is_entry_line(r: Seq<u8>) -> bool {
    &&& r[0] == 0xAA
    &&& r[1] == 0x50
    &&& subkind_known(r[2], r[3])
}

/// The entry that a record holds.
pub open spec fn entry_of(r: Seq<u8>) -> EntryModel {
    EntryModel {
        name: r.subrange(12, 28),
        kind: r[2],
        subkind: r[3],
        offset: le32(r, 4) as u32,
        size: le32(r, 8) as u32,
        encrypted: r[28] == 1,
    }
}

/// Reads records from index `i` on, with `acc` read so far: entries are
/// collected, digest lines passed over, and the end marker closes the table.
/// Anything else, or running out of records, is no table.
pub open spec fn scan(b: Seq<u8>, i: int, acc: Seq<EntryModel>) -> Option<Seq<EntryModel>>
    decreases b.len() - 32 * i,
{
    if i < 0 || 32 * i + 32 > b.len() {
        None
    } else if is_end_marker(record(b, i)) {
        Some(acc)
    } else if is_digest_line(record(b, i)) {
        scan(b, i + 1, acc)
    } else if is_entry_line(record(b, i)) {
        scan(b, i + 1, acc.push(entry_of(record(b, i))))
    } else {
        None
    }
}

/// The entries that the bytes hold, if the bytes are a table.
pub open spec fn decoded(b: Seq<u8>) -> Option<Seq<EntryModel>> {
    if b.len() % 32 != 0 {
        None
    } else {
        scan(b, 0, Seq::empty())
    }
}

/// First byte past an entry.
pub open spec fn end_of(e: EntryModel) -> int {
    e.offset + e.size
}

/// Two entries overlap when some byte of flash belongs to both.
pub open spec fn overlap(a: EntryModel, b: EntryModel) -> bool {
    vstd::math::max(a.offset as int, b.offset as int) < vstd::math::min(end_of(a), end_of(b))
}

/// The entries can stand in one table: there are no more than the binary
/// form has room for, each ends inside the 32-bit address space, and no two
/// overlap.
pub open spec fn well_formed(es: Seq<EntryModel>) -> bool {
    &&& es.len() <= MAX_ENTRIES
    &&& forall|i: int| 0 <= i < es.len() ==> end_of(#[trigger] es[i]) <= u32::MAX
    &&& forall|i: int, j: int|
        0 <= i < j < es.len() ==> !overlap(#[trigger] es[i], #[trigger] es[j])
}

/// Every entry ends at or before `limit`.
pub open spec fn within(es: Seq<EntryModel>, limit: int) -> bool {
    forall|i: int| 0 <= i < es.len() ==> end_of(#[trigger] es[i]) <= limit
}

/// The bytes are a table whose entries can stand together.
pub open spec fn table_layout_ok(b: Seq<u8>) -> bool {
    decoded(b) matches Some(es) && well_formed(es)
}

/// The bytes are a table that a flash part of the given size can hold.
pub open spec fn table_fits(b: Seq<u8>, flash: FlashSize) -> bool {
    decoded(b) matches Some(es) && within(es, flash.spec_bytes() as int)
}

fn line_is_end(b: &[u8], base: usize) -> (r: bool)
    requires
        base + 32 <= b@.len(),
    ensures
        r == is_end_marker(b@.subrange(base as int, base + 32)),
{
    let ghost line = b@.subrange(base as int, base + 32);
    let n = b.len();
    let mut k: usize = 0;
    while k < 32
        invariant
            k <= 32,
            n == b@.len(),
            base + 32 <= n,
            line == b@.subrange(base as int, base + 32),
            forall|j: int| 0 <= j < k ==> line[j] == 0xFF,
        decreases 32 - k,
    {
        if b[base + k] != 0xFF {
            assert(line[k as int] == b@[base + k]);
            return false;
        }
        assert(line[k as int] == b@[base + k]);
        k = k + 1;
    }
    true
}

fn line_is_digest(b: &[u8], base: usize) -> (r: bool)
    requires
        base + 32 <= b@.len(),
    ensures
        r == is_digest_line(b@.subrange(base as int, base + 32)),
{
    let ghost line = b@.subrange(base as int, base + 32);
    assert(line[0] == b@[base + 0]);
    assert(line[1] == b@[base + 1]);
    if b[base] != 0xEB || b[base + 1] != 0xEB {
        return false;
    }
    let n = b.len();
    let mut k: usize = 2;
    while k < 16
        invariant
            2 <= k <= 16,
            n == b@.len(),
            base + 32 <= n,
            line == b@.subrange(base as int, base + 32),
            forall|j: int| 2 <= j < k ==> line[j] == 0xFF,
        decreases 16 - k,
    {
        if b[base + k] != 0xFF {
            assert(line[k as int] == b@[base + k]);
            return false;
        }
        assert(line[k as int] == b@[base + k]);
        k = k + 1;
    }
    true
}

fn kind_accepts(kind: u8, subkind: u8) -> (r: bool)
    ensures
        r == subkind_known(kind, subkind),
{
    if kind == 0 {
        subkind == 0 || (0x10 <= subkind && subkind <= 0x20)
    } else if kind == 1 {
        subkind <= 6 || (0x80 <= subkind && subkind <= 0x83)
    } else {
        true
    }
}

fn line_entry(b: &[u8], base: usize) -> (r: Option<PartitionEntry>)
    requires
        base + 32 <= b@.len(),
    ensures
        r is Some == is_entry_line(b@.subrange(base as int, base + 32)),
        r matches Some(e) ==> e@ == entry_of(b@.subrange(base as int, base + 32)),
{
    let ghost line = b@.subrange(base as int, base + 32);
    assert(forall|k: int| 0 <= k < 32 ==> line[k] == b@[base + k]);
    if b[base] != 0xAA || b[base + 1] != 0x50 {
        return None;
    }
    let kind = b[base + 2];
    let subkind = b[base + 3];
    if !kind_accepts(kind, subkind) {
        return None;
    }
    let offset = read_le32(b, base + 4);
    let size = read_le32(b, base + 8);
    let name = slice_to_vec(slice_subrange(b, base + 12, base + 28));
    let encrypted = b[base + 28] == 1;
    proof {
        assert(name@ =~= line.subrange(12, 28));
        assert(le32(b@, base + 4) == le32(line, 4));
        assert(le32(b@, base + 8) == le32(line, 8));
    }
    Some(PartitionEntry { name, kind, subkind, offset, size, encrypted })
}

/// Reads the entries of a binary partition table. `None` when the bytes are
/// no table: their length is no multiple of the record length, a record is
/// neither an entry, a digest line nor the end marker, or the end marker is
/// missing.
pub fn decode_entries(bytes: &[u8]) -> (r: Option<Vec<PartitionEntry>>)
    ensures
        r is Some == decoded(bytes@) is Some,
        r matches Some(entries) ==> decoded(bytes@) == Some(models(entries@)),
{
    let len = bytes.len();
    if len % 32 != 0 {
        return None;
    }
    let mut out: Vec<PartitionEntry> = Vec::new();
    let mut base: usize = 0;
    assert(models(out@) =~= Seq::empty());
    while base < len
        invariant
            len == bytes@.len(),
            len % 32 == 0,
            base % 32 == 0,
            base <= len,
            decoded(bytes@) == scan(bytes@, base as int / 32, models(out@)),
        decreases len - base,
    {
        let ghost i = base as int / 32;
        assert(32 * i == base);
        assert(record(bytes@, i) == bytes@.subrange(base as int, base + 32));
        if line_is_end(bytes, base) {
            return Some(out);
        }
        if !line_is_digest(bytes, base) {
            match line_entry(bytes, base) {
                Some(entry) => {
                    let ghost before = models(out@);
                    out.push(entry);
                    assert(models(out@) =~= before.push(entry@));
                },
                None => {
                    return None;
                },
            }
        }
        base = base + 32;
        assert(base as int / 32 == i + 1);
    }
    None
}

fn entries_overlap(a: &PartitionEntry, b: &PartitionEntry) -> (r: bool)
    ensures
        r == overlap(a@, b@),
{
    let a_end: u64 = a.offset as u64 + a.size as u64;
    let b_end: u64 = b.offset as u64 + b.size as u64;
    let start: u64 = if a.offset >= b.offset {
        a.offset as u64
    } else {
        b.offset as u64
    };
    let end: u64 = if a_end <= b_end {
        a_end
    } else {
        b_end
    };
    start < end
}

/// Whether the entries can stand in one table.
pub fn entries_well_formed(entries: &Vec<PartitionEntry>) -> (r: bool)
    ensures
        r == well_formed(models(entries@)),
{
    let n = entries.len();
    let ghost es = models(entries@);
    if n > MAX_ENTRIES {
        return false;
    }
    let mut i: usize = 0;
    while i < n
        invariant
            i <= n,
            n == entries@.len(),
            es == models(entries@),
            forall|k: int| 0 <= k < i ==> end_of(#[trigger] es[k]) <= u32::MAX,
        decreases n - i,
    {
        assert(es[i as int] == entries@[i as int]@);
        if entries[i].offset as u64 + entries[i].size as u64 > u32::MAX as u64 {
            return false;
        }
        i = i + 1;
    }
    let mut i: usize = 0;
    while i < n
        invariant
            i <= n,
            n == entries@.len(),
            es == models(entries@),
            forall|k: int| 0 <= k < n ==> end_of(#[trigger] es[k]) <= u32::MAX,
            forall|a: int, b: int|
                0 <= a < b < n && a < i ==> !overlap(#[trigger] es[a], #[trigger] es[b]),
        decreases n - i,
    {
        let mut j: usize = i + 1;
        while j < n
            invariant
                i < j <= n,
                n == entries@.len(),
                es == models(entries@),
                forall|a: int, b: int|
                    0 <= a < b < n && a < i ==> !overlap(#[trigger] es[a], #[trigger] es[b]),
                forall|b: int| i < b < j ==> !overlap(es[i as int], #[trigger] es[b]),
            decreases n - j,
        {
            assert(es[i as int] == entries@[i as int]@);
            assert(es[j as int] == entries@[j as int]@);
            if entries_overlap(&entries[i], &entries[j]) {
                return false;
            }
            j = j + 1;
        }
        i = i + 1;
    }
    true
}

/// Whether every entry ends at or before `limit`.
pub fn entries_within(entries: &Vec<PartitionEntry>, limit: u32) -> (r: bool)
    ensures
        r == within(models(entries@), limit as int),
{
    let n = entries.len();
    let ghost es = models(entries@);
    let mut i: usize = 0;
    while i < n
        invariant
            i <= n,
            n == entries@.len(),
            es == models(entries@),
            forall|k: int| 0 <= k < i ==> end_of(#[trigger] es[k]) <= limit,
        decreases n - i,
    {
        assert(es[i as int] == entries@[i as int]@);
        if entries[i].offset as u64 + entries[i].size as u64 > limit as u64 {
            return false;
        }
        i = i + 1;
    }
    true
}

fn checked_entries(bytes: &[u8], flash: FlashSize) -> (r: Option<Vec<PartitionEntry>>)
    ensures
        r is Some == (table_layout_ok(bytes@) && table_fits(bytes@, flash)),
        r matches Some(entries) ==> decoded(bytes@) == Some(models(entries@)),
{
    match decode_entries(bytes) {
        Some(entries) => {
            if entries_well_formed(&entries) && entries_within(&entries, flash.bytes()) {
                Some(entries)
            } else {
                None
            }
        },
        None => None,
    }
}

/// Whether `PartitionTable::try_from_bytes` of `esp-idf-part` returns `Ok`
/// on these bytes. Beyond the layout it checks the digest line, alignment,
/// sizes and names, and asks for an application partition.
pub uninterp spec fn parser_accepts(bytes: Seq<u8>) -> bool;

/// Calls `PartitionTable::try_from_bytes` of `esp-idf-part` and says whether
/// it returned `Ok`. The parser is a function of the bytes alone. It unwraps
/// the subtype of application and data entries and adds offsets to sizes in
/// 32 bits, so it is handed only tables whose subtypes are known and whose
/// entries end inside the 32-bit address space.
#[verifier::external_body]
fn parser_answer(bytes: &[u8]) -> (accepted: bool)
    requires
        table_layout_ok(bytes@),
    ensures
        accepted == parser_accepts(bytes@),
{
    BinaryTable::try_from_bytes(bytes).is_ok()
}

/// A partition table that passed every check: its bytes as they were given,
/// and the entries read from them.
#[derive(Debug)]
pub struct PartitionTable {
    image: Vec<u8>,
    entries: Vec<PartitionEntry>,
}

impl View for PartitionTable {
    type V = Seq<u8>;

    closed spec fn view(&self) -> Seq<u8> {
        self.image@
    }
}

impl PartitionTable {
    #[verifier::type_invariant]
    spec fn valid(self) -> bool {
        &&& decoded(self.image@) == Some(models(self.entries@))
        &&& well_formed(models(self.entries@))
    }

    /// The bytes of the table.
    pub fn as_bytes(&self) -> (bytes: &Vec<u8>)
        ensures
            bytes@ == self@,
            table_layout_ok(bytes@),
    {
        proof {
            use_type_invariant(self);
        }
        &self.image
    }

    /// The entries of the table, in the order of the records.
    pub fn entries(&self) -> (entries: &Vec<PartitionEntry>)
        ensures
            decoded(self@) == Some(models(entries@)),
            well_formed(models(entries@)),
    {
        proof {
            use_type_invariant(self);
        }
        &self.entries
    }

    /// Whether a flash part of the given size can hold every entry.
    pub fn fits(&self, flash: FlashSize) -> (r: bool)
        ensures
            r == table_fits(self@, flash),
    {
        proof {
            use_type_invariant(self);
        }
        entries_within(&self.entries, flash.bytes())
    }
}

/// What loading a table comes to, given what the parser answered: the table is
/// taken when its layout is sound, the flash part can hold it and the parser
/// accepted it, and is malformed otherwise.
pub open spec fn admitted(bytes: Seq<u8>, flash: FlashSize, accepted: bool) -> bool {
    table_layout_ok(bytes) && table_fits(bytes, flash) && accepted
}

/// Decides on a table once the parser has answered. There is no
/// partial result: either the whole table is returned, with the bytes it was
/// read from, or `MalformedPartitionTable`.
pub fn admit_table(bytes: Vec<u8>, flash: FlashSize, accepted: bool) -> (r: Result<
    PartitionTable,
    AssemblyError,
>)
    ensures
        r is Ok == admitted(bytes@, flash, accepted),
        r matches Ok(table) ==> table@ == bytes@,
        r matches Err(e) ==> e == AssemblyError::MalformedPartitionTable,
{
    if !accepted {
        return Err(AssemblyError::MalformedPartitionTable);
    }
    match checked_entries(bytes.as_slice(), flash) {
        Some(entries) => Ok(PartitionTable { image: bytes, entries }),
        None => Err(AssemblyError::MalformedPartitionTable),
    }
}

/// Loads an optional partition table. Without bytes there is no table and
/// the chip's default layout applies. With bytes, the table is returned
/// when its layout is sound, a flash part of the given size can hold it and
/// the parser of `esp-idf-part` accepts it; every other input fails with
/// `MalformedPartitionTable`.
pub fn load_partition_table(bytes: Option<Vec<u8>>, flash: FlashSize) -> (r: Result<
    Option<PartitionTable>,
    AssemblyError,
>)
    ensures
        bytes is None ==> r == Ok::<Option<PartitionTable>, AssemblyError>(None),
        bytes matches Some(b) ==> match r {
            Ok(Some(table)) => admitted(b@, flash, parser_accepts(b@)) && table@ == b@,
            Ok(None) => false,
            Err(e) => e == AssemblyError::MalformedPartitionTable && !admitted(
                b@,
                flash,
                parser_accepts(b@),
            ),
        },
{
    match bytes {
        None => Ok(None),
        Some(b) => {
            let sound = checked_entries(b.as_slice(), flash).is_some();
            if !sound {
                return Err(AssemblyError::MalformedPartitionTable);
            }
            let accepted = parser_answer(b.as_slice());
            match admit_table(b, flash, accepted) {
                Ok(table) => Ok(Some(table)),
                Err(e) => Err(e),
            }
        },
    }
}

/// Bytes whose length is no multiple of the record length are no table.
pub proof fn lemma_truncated_is_malformed(bytes: Seq<u8>, flash: FlashSize, accepted: bool)
    requires
        bytes.len() % 32 != 0,
    ensures
        !admitted(bytes, flash, accepted),
{
}

/// A table with two entries that overlap is malformed, whatever else holds
/// of it.
pub proof fn lemma_overlap_is_malformed(
    bytes: Seq<u8>,
    flash: FlashSize,
    accepted: bool,
    i: int,
    j: int,
)
    requires
        decoded(bytes) is Some,
        0 <= i < decoded(bytes).unwrap().len(),
        0 <= j < decoded(bytes).unwrap().len(),
        i != j,
        overlap(decoded(bytes).unwrap()[i], decoded(bytes).unwrap()[j]),
    ensures
        !admitted(bytes, flash, accepted),
{
    let es = decoded(bytes).unwrap();
    if i < j {
        assert(overlap(es[i], es[j]));
    } else {
        assert(overlap(es[j], es[i]));
    }
}

/// A table with an entry that ends past the flash part is malformed.
pub proof fn lemma_oversize_is_malformed(bytes: Seq<u8>, flash: FlashSize, accepted: bool, i: int)
    requires
        decoded(bytes) is Some,
        0 <= i < decoded(bytes).unwrap().len(),
        end_of(decoded(bytes).unwrap()[i]) > flash.spec_bytes(),
    ensures
        !admitted(bytes, flash, accepted),
{
    let es = decoded(bytes).unwrap();
    assert(end_of(es[i]) > flash.spec_bytes());
}

} // verus!
