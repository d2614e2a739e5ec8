//! The compiled executable: a 32-bit little-endian ELF file, of which the
//! image builder reads the header and the loadable sections. The file is
//! checked here, section by section, before the builder sees it.

use vstd::prelude::*;
use vstd::slice::{slice_subrange, slice_to_vec};
use crate::bytes::{le16, le32, read_le16, read_le32};
use crate::error::AssemblyError;
use crate::flash::FlashSize;

verus! {

/// Length of the file header of a 32-bit ELF file.
pub const FILE_HEADER_LEN: usize = 52;

/// Length of a section header of a 32-bit ELF file.
pub const SECTION_HEADER_LEN: usize = 40;

/// Section indices from here on are reserved.
pub const RESERVED_INDEX: usize = 0xff00;

/// The most loadable sections an executable may have: the image header
/// counts its segments in one byte.
pub const MAX_LOADABLE: usize = 255;

/// The most bytes that the loadable sections may hold together: the size of
/// the largest flash part.
pub const MAX_LOAD_SIZE: u64 = 0x100_0000;

/// Section type of program data.
pub const PROGRAM_DATA: u32 = 1;

/// A section that is loaded: where it goes, and where its bytes are.
#[derive(Clone, Copy, Debug, PartialEq, Eq, Structural)]
pub struct LoadableSection {
    /// Address at which the section is loaded.
    pub address: u32,
    /// Offset of the section's bytes in the file.
    pub offset: u32,
    /// Number of bytes.
    pub size: u32,
}

/// The file starts like a 32-bit little-endian ELF file.
pub open spec fn header_ok(b: Seq<u8>) -> bool {
    &&& b.len() >= FILE_HEADER_LEN
    &&& b[0] == 0x7f
    &&& b[1] == 0x45
    &&& b[2] == 0x4c
    &&& b[3] == 0x46
    &&& b[4] == 1
    &&& b[5] == 1
}

/// The address at which execution starts.
pub open spec fn entry_point(b: Seq<u8>) -> int {
    le32(b, 24)
}

/// Offset of the section header table.
pub open spec fn table_offset(b: Seq<u8>) -> int {
    le32(b, 32)
}

/// Size of one section header.
pub open spec fn header_size(b: Seq<u8>) -> int {
    le16(b, 46)
}

/// Number of section headers.
pub open spec fn section_count(b: Seq<u8>) -> int {
    le16(b, 48)
}

/// The section header table lies inside the file, on a four-byte boundary,
/// and its headers are whole.
pub open spec fn table_ok(b: Seq<u8>) -> bool {
    &&& section_count(b) <= RESERVED_INDEX
    &&& section_count(b) > 0 ==> {
        &&& header_size(b) >= SECTION_HEADER_LEN
        &&& header_size(b) % 4 == 0
        &&& table_offset(b) % 4 == 0
        &&& table_offset(b) + section_count(b) * header_size(b) <= b.len()
    }
}

/// Offset of the header of section `i`.
pub open spec fn header_at(b: Seq<u8>, i: int) -> int {
    table_offset(b) + i * header_size(b)
}

/// What the header of section `i` says of it.
pub open spec fn section(b: Seq<u8>, i: int) -> LoadableSection {
    LoadableSection {
        address: le32(b, header_at(b, i) + 12) as u32,
        offset: le32(b, header_at(b, i) + 16) as u32,
        size: le32(b, header_at(b, i) + 20) as u32,
    }
}

/// Section `i` is loaded: it is program data, it is not empty, and it has a
/// place in the file and an address.
pub open spec fn loadable(b: Seq<u8>, i: int) -> bool {
    &&& le32(b, header_at(b, i) + 4) == PROGRAM_DATA
    &&& section(b, i).size > 0
    &&& section(b, i).offset > 0
    &&& section(b, i).address > 0
}

/// The bytes of the section lie inside the file, and the section, padded to
/// a multiple of four bytes, ends inside the 32-bit address space.
pub open spec fn sound(s: LoadableSection, file_len: int) -> bool {
    &&& s.offset + s.size <= file_len
    &&& s.address + s.size + 3 <= u32::MAX
}

/// The loadable sections among the first `n`, in the order of the table;
/// `None` if one of them is not sound.
pub open spec fn loadable_sections(b: Seq<u8>, n: int) -> Option<Seq<LoadableSection>>
    decreases n,
{
    if n <= 0 {
        Some(Seq::empty())
    } else {
        match loadable_sections(b, n - 1) {
            None => None,
            Some(found) => if !loadable(b, n - 1) {
                Some(found)
            } else if sound(section(b, n - 1), b.len() as int) {
                Some(found.push(section(b, n - 1)))
            } else {
                None
            },
        }
    }
}

/// The number of bytes that the sections hold together.
pub open spec fn load_size(sections: Seq<LoadableSection>) -> int
    decreases sections.len(),
{
    if sections.len() == 0 {
        0
    } else {
        load_size(sections.drop_last()) + sections.last().size
    }
}

/// The file is an executable that an application image can be built from:
/// its headers are in order, every loadable section is sound, and there is
/// at least one of them and no more than an image can take.
pub open spec fn executable_ok(b: Seq<u8>) -> bool {
    &&& header_ok(b)
    &&& table_ok(b)
    &&& loadable_sections(b, section_count(b)) matches Some(found)
    &&& 1 <= found.len() <= MAX_LOADABLE
    &&& load_size(found) <= MAX_LOAD_SIZE
}

/// The loadable sections of an executable.
pub open spec fn sections_of(b: Seq<u8>) -> Seq<LoadableSection> {
    loadable_sections(b, section_count(b)).unwrap()
}

/// The loadable sections fit a flash part of the given size.
pub open spec fn executable_fits(b: Seq<u8>, flash: FlashSize) -> bool {
    load_size(sections_of(b)) <= flash.spec_bytes()
}

proof fn lemma_load_size_push(sections: Seq<LoadableSection>, s: LoadableSection)
    ensures
        load_size(sections.push(s)) == load_size(sections) + s.size,
{
    assert(sections.push(s).drop_last() =~= sections);
}

fn check_header(b: &[u8]) -> (r: bool)
    ensures
        r == header_ok(b@),
{
    b.len() >= FILE_HEADER_LEN && b[0] == 0x7f && b[1] == 0x45 && b[2] == 0x4c && b[3] == 0x46
        && b[4] == 1 && b[5] == 1
}

fn check_table(b: &[u8]) -> (r: bool)
    requires
        header_ok(b@),
    ensures
        r == table_ok(b@),
{
    let count = read_le16(b, 48) as u64;
    let size = read_le16(b, 46) as u64;
    let offset = read_le32(b, 32) as u64;
    if count > RESERVED_INDEX as u64 {
        return false;
    }
    if count == 0 {
        return true;
    }
    assert(count * size <= 0xffff * 0xffff) by (nonlinear_arith)
        requires
            count <= 0xffff,
            size <= 0xffff,
    ;
    size >= SECTION_HEADER_LEN as u64 && size % 4 == 0 && offset % 4 == 0 && offset + count
        * size <= b.len() as u64
}

/// What the loadable sections of an executable are, once they are found.
struct Found {
    sections: Vec<LoadableSection>,
    total: u64,
}

fn find_sections(b: &[u8]) -> (r: Option<Found>)
    requires
        header_ok(b@),
        table_ok(b@),
    ensures
        r is Some == loadable_sections(b@, section_count(b@)) is Some,
        r matches Some(found) ==> {
            &&& loadable_sections(b@, section_count(b@)) == Some(found.sections@)
            &&& found.total == load_size(found.sections@)
            &&& forall|k: int|
                0 <= k < found.sections@.len() ==> sound(
                    #[trigger] found.sections@[k],
                    b@.len() as int,
                )
        },
{
    let count = read_le16(b, 48) as usize;
    let size = read_le16(b, 46) as usize;
    let offset = read_le32(b, 32) as usize;
    let len = b.len();
    let mut sections: Vec<LoadableSection> = Vec::new();
    let mut total: u64 = 0;
    let mut i: usize = 0;
    let mut at: usize = offset;
    assert(load_size(sections@) == 0);
    while i < count
        invariant
            header_ok(b@),
            table_ok(b@),
            len == b@.len(),
            count == section_count(b@),
            size == header_size(b@),
            offset == table_offset(b@),
            i <= count,
            at == offset + i * size,
            loadable_sections(b@, i as int) == Some(sections@),
            total == load_size(sections@),
            total <= i * 0xffff_ffff,
            forall|k: int| 0 <= k < sections@.len() ==> sound(#[trigger] sections@[k], len as int),
        decreases count - i,
    {
        assert(at + size <= len && (i + 1) * size == i * size + size) by (nonlinear_arith)
            requires
                at == offset + i * size,
                i < count,
                offset + count * size <= len,
                size >= 0,
        ;
        assert(header_at(b@, i as int) == at);
        let kind = read_le32(b, at + 4);
        let address = read_le32(b, at + 12);
        let file_offset = read_le32(b, at + 16);
        let section_size = read_le32(b, at + 20);
        let s = LoadableSection { address, offset: file_offset, size: section_size };
        assert(s == section(b@, i as int));
        assert((i + 1) * 0xffff_ffff == i * 0xffff_ffff + 0xffff_ffff) by (nonlinear_arith);
        assert(i * 0xffff_ffff <= 0xffff * 0xffff_ffff) by (nonlinear_arith)
            requires
                i <= 0xffff,
        ;
        if kind == PROGRAM_DATA && section_size > 0 && file_offset > 0 && address > 0 {
            if file_offset as u64 + section_size as u64 > len as u64 || address as u64
                + section_size as u64 + 3 > u32::MAX as u64 {
                proof {
                    assert(loadable_sections(b@, i + 1) is None);
                    lemma_none_stays(b@, i + 1, count as int);
                }
                return None;
            }
            proof {
                lemma_load_size_push(sections@, s);
            }
            sections.push(s);
            total = total + section_size as u64;
        }
        i = i + 1;
        at = at + size;
    }
    Some(Found { sections, total })
}

proof fn lemma_none_stays(b: Seq<u8>, n: int, m: int)
    requires
        0 <= n <= m,
        loadable_sections(b, n) is None,
    ensures
        loadable_sections(b, m) is None,
    decreases m - n,
{
    if n < m {
        lemma_none_stays(b, n, m - 1);
    }
}

/// An executable that passed every check, with its loadable sections.
#[derive(Debug)]
pub struct ExecutableImage {
    bytes: Vec<u8>,
    sections: Vec<LoadableSection>,
    total: u64,
}

impl View for ExecutableImage {
    type V = Seq<u8>;

    closed spec fn view(&self) -> Seq<u8> {
        self.bytes@
    }
}

impl ExecutableImage {
    #[verifier::type_invariant]
    spec fn valid(self) -> bool {
        &&& executable_ok(self.bytes@)
        &&& self.sections@ == sections_of(self.bytes@)
        &&& self.total == load_size(self.sections@)
        &&& forall|k: int|
            0 <= k < self.sections@.len() ==> sound(
                #[trigger] self.sections@[k],
                self.bytes@.len() as int,
            )
    }

    /// Checks an executable. It is taken exactly when it is one that an
    /// application image can be built from; every other input fails with
    /// `InvalidExecutable`.
    pub fn parse(bytes: Vec<u8>) -> (r: Result<ExecutableImage, AssemblyError>)
        ensures
            r is Ok == executable_ok(bytes@),
            r matches Ok(image) ==> image@ == bytes@,
            r matches Err(e) ==> e == AssemblyError::InvalidExecutable,
    {
        if !check_header(bytes.as_slice()) {
            return Err(AssemblyError::InvalidExecutable);
        }
        if !check_table(bytes.as_slice()) {
            return Err(AssemblyError::InvalidExecutable);
        }
        match find_sections(bytes.as_slice()) {
            None => Err(AssemblyError::InvalidExecutable),
            Some(found) => {
                if found.sections.len() < 1 || found.sections.len() > MAX_LOADABLE || found.total
                    > MAX_LOAD_SIZE {
                    return Err(AssemblyError::InvalidExecutable);
                }
                Ok(ExecutableImage { bytes, sections: found.sections, total: found.total })
            },
        }
    }

    /// The bytes of the file.
    pub fn as_bytes(&self) -> (bytes: &Vec<u8>)
        ensures
            bytes@ == self@,
            executable_ok(bytes@),
    {
        proof {
            use_type_invariant(self);
        }
        &self.bytes
    }

    /// The loadable sections, in the order of the section header table.
    pub fn sections(&self) -> (sections: &Vec<LoadableSection>)
        ensures
            sections@ == sections_of(self@),
            1 <= sections@.len() <= MAX_LOADABLE,
    {
        proof {
            use_type_invariant(self);
        }
        &self.sections
    }

    /// The bytes of the loadable section with index `i`, if there is one.
    pub fn section_data(&self, i: usize) -> (data: Option<Vec<u8>>)
        ensures
            data is Some == (i < sections_of(self@).len()),
            data matches Some(d) ==> d@ == self@.subrange(
                sections_of(self@)[i as int].offset as int,
                sections_of(self@)[i as int].offset + sections_of(self@)[i as int].size,
            ),
    {
        proof {
            use_type_invariant(self);
        }
        if i >= self.sections.len() {
            return None;
        }
        let s = self.sections[i];
        assert(sound(self.sections@[i as int], self.bytes@.len() as int));
        let len = self.bytes.len();
        let from = s.offset as usize;
        let to = from + s.size as usize;
        Some(slice_to_vec(slice_subrange(self.bytes.as_slice(), from, to)))
    }

    /// The address at which execution starts.
    pub fn entry(&self) -> (address: u32)
        ensures
            address == entry_point(self@),
    {
        proof {
            use_type_invariant(self);
        }
        read_le32(self.bytes.as_slice(), 24)
    }

    /// The number of bytes that the loadable sections hold together.
    pub fn load_size(&self) -> (n: u64)
        ensures
            n == load_size(sections_of(self@)),
            n <= MAX_LOAD_SIZE,
    {
        proof {
            use_type_invariant(self);
        }
        self.total
    }

    /// Whether the loadable sections fit a flash part of the given size.
    pub fn fits(&self, flash: FlashSize) -> (r: bool)
        ensures
            r == executable_fits(self@, flash),
    {
        proof {
            use_type_invariant(self);
        }
        self.total <= flash.bytes() as u64
    }
}

/// A file too short for the file header is no executable.
pub proof fn lemma_short_file_is_invalid(bytes: Seq<u8>)
    requires
        bytes.len() < FILE_HEADER_LEN,
    ensures
        !executable_ok(bytes),
{
}

/// A file without section headers has nothing to load and is no executable.
pub proof fn lemma_no_sections_is_invalid(bytes: Seq<u8>)
    requires
        section_count(bytes) == 0,
    ensures
        !executable_ok(bytes),
{
}

} // verus!
