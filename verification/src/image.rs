//! The image set: bootloader, partition table and application image, each
//! at the fixed offset of the chip family. The application image, the
//! bundled bootloader and the default table come from the image builder of
//! `espflash`; choosing the bootloader, guarding what the builder is handed,
//! placing what it returns and checking the result is done here. A supplied
//! table is written as it was supplied, and a supplied bootloader with
//! nothing changed but its header and digest.

use bytemuck::cast_slice_mut;
use vstd::prelude::*;
use vstd::slice::slice_to_vec;
use crate::chip::{ChipProfile, APPLICATION_OFFSET, PARTITION_TABLE_OFFSET};
use crate::error::AssemblyError;
use crate::executable::{executable_fits, executable_ok, ExecutableImage};
use crate::flash::FlashSize;
use crate::table::{table_fits, table_layout_ok, PartitionTable};
use esp_idf_part::PartitionTable as BinaryTable;
use espflash::elf::ElfFirmwareImage;
use espflash::error::Error as BuilderError;
use espflash::flasher::{FlashData, FlashSettings, FlashSize as BuilderFlashSize};
use espflash::targets::{Chip, XtalFrequency};

verus! {

/// Length of the header of an image.
pub const IMAGE_HEADER_LEN: usize = 24;

/// Length of the digest at the end of an image.
pub const DIGEST_LEN: usize = 32;

/// No bootloader is shorter than this: the builder reads the header and
/// writes the digest.
pub const MIN_BOOTLOADER_LEN: usize = 32;

/// First byte of every image that the ROM loader starts.
pub const IMAGE_MAGIC: u8 = 0xE9;

/// One region to write to flash.
#[derive(Debug)]
pub struct FlashSegment {
    /// Absolute offset in flash.
    pub offset: u32,
    /// The bytes to write there.
    pub payload: Vec<u8>,
}

/// A segment as mathematical values.
pub struct SegmentModel {
    pub offset: u32,
    pub payload: Seq<u8>,
}

impl View for FlashSegment {
    type V = SegmentModel;

    open spec fn view(&self) -> SegmentModel {
        SegmentModel { offset: self.offset, payload: self.payload@ }
    }
}

/// An image set as mathematical values: the family and the three payloads.
pub struct ImageSetModel {
    pub chip: ChipProfile,
    pub bootloader: Seq<u8>,
    pub partition_table: Seq<u8>,
    pub application: Seq<u8>,
}

/// The offsets of the three segments of a family, in the order in which
/// they are written: bootloader, partition table, application.
pub open spec fn segment_offsets(chip: ChipProfile) -> Seq<u32> {
    seq![chip.spec_bootloader_offset(), PARTITION_TABLE_OFFSET, APPLICATION_OFFSET]
}

impl ImageSetModel {
    /// The three segments, in the order in which they are written.
    pub open spec fn segments(self) -> Seq<SegmentModel> {
        seq![
            SegmentModel { offset: segment_offsets(self.chip)[0], payload: self.bootloader },
            SegmentModel { offset: segment_offsets(self.chip)[1], payload: self.partition_table },
            SegmentModel { offset: segment_offsets(self.chip)[2], payload: self.application },
        ]
    }
}

/// Each segment ends at or before the offset of every later one.
pub open spec fn ordered(segments: Seq<SegmentModel>) -> bool {
    forall|i: int, j: int|
        0 <= i < j < segments.len() ==> (#[trigger] segments[i]).offset
            + segments[i].payload.len() <= (#[trigger] segments[j]).offset
}

/// A supplied bootloader is long enough to be an image and starts like one.
pub open spec fn bootloader_ok(b: Seq<u8>) -> bool {
    b.len() >= MIN_BOOTLOADER_LEN && b[0] == IMAGE_MAGIC
}

/// The builder's bootloader is the supplied one but for its header, where
/// the builder enters the flash settings, and its digest, which the builder
/// renews: the length is the same, and so is every byte between the two.
pub open spec fn same_bootloader(supplied: Seq<u8>, built: Seq<u8>) -> bool {
    &&& built.len() == supplied.len()
    &&& forall|i: int|
        IMAGE_HEADER_LEN <= i < supplied.len() - DIGEST_LEN ==> built[i] == supplied[i]
}

/// The bootloader that goes into the image set.
#[derive(Debug)]
pub enum Bootloader {
    /// The one that the caller supplied.
    Supplied(Vec<u8>),
    /// The one that the image builder bundles for the chip family.
    Bundled,
}

/// Chooses the bootloader: the supplied one if there is one, else the
/// bundled one. Fails with `MissingBootloader` when there is neither, and
/// with `InvalidBootloader` when the supplied bytes are no bootloader image.
pub fn choose_bootloader(supplied: Option<Vec<u8>>, bundled: bool) -> (r: Result<
    Bootloader,
    AssemblyError,
>)
    ensures
        match supplied {
            Some(b) => if bootloader_ok(b@) {
                r matches Ok(Bootloader::Supplied(chosen)) && chosen@ == b@
            } else {
                r == Err::<Bootloader, AssemblyError>(AssemblyError::InvalidBootloader)
            },
            None => if bundled {
                r == Ok::<Bootloader, AssemblyError>(Bootloader::Bundled)
            } else {
                r == Err::<Bootloader, AssemblyError>(AssemblyError::MissingBootloader)
            },
        },
{
    match supplied {
        Some(b) => {
            if b.len() >= MIN_BOOTLOADER_LEN && b[0] == IMAGE_MAGIC {
                Ok(Bootloader::Supplied(b))
            } else {
                Err(AssemblyError::InvalidBootloader)
            }
        },
        None => {
            if bundled {
                Ok(Bootloader::Bundled)
            } else {
                Err(AssemblyError::MissingBootloader)
            }
        },
    }
}

/// The view of optional bytes.
pub open spec fn bytes_view(o: Option<Vec<u8>>) -> Option<Seq<u8>> {
    match o {
        Some(b) => Some(b@),
        None => None,
    }
}

/// The view of a list of payloads.
pub open spec fn payloads_view(o: Option<Vec<Vec<u8>>>) -> Option<Seq<Seq<u8>>> {
    match o {
        Some(p) => Some(p@.map_values(|v: Vec<u8>| v@)),
        None => None,
    }
}

/// The error type of the image builder. Nothing is read from it: whatever
/// the builder refuses is an executable that no image can be built from.
#[verifier::external_type_specification]
#[verifier::external_body]
pub struct ExBuilderError(espflash::error::Error);

/// The payloads that the builder returned, if it returned any.
pub open spec fn built_view(r: Result<Vec<Vec<u8>>, BuilderError>) -> Option<Seq<Seq<u8>>> {
    match r {
        Ok(p) => Some(p@.map_values(|v: Vec<u8>| v@)),
        Err(_) => None,
    }
}

/// The payloads of the flash segments that `espflash` builds, in the order
/// in which `flash_segments` yields them, or `None` where one of its steps
/// fails: `Chip::from_magic` on the family's magic value,
/// `FlashSize::from_detected` on the capacity byte,
/// `ElfFirmwareImage::try_from` on the executable,
/// `PartitionTable::try_from_bytes` on the table, `Target::get_flash_image`.
/// Without a bootloader or a table the builder takes its own.
pub uninterp spec fn built_payloads(
    chip_magic: u32,
    executable: Seq<u8>,
    bootloader: Option<Seq<u8>>,
    table: Option<Seq<u8>>,
    table_offset: u32,
    capacity_id: u8,
) -> Option<Seq<Seq<u8>>>;

/// Calls the image builder of `espflash`: `Target::get_flash_image` on the
/// parsed executable and the flash data made of the other arguments, then
/// `flash_segments`, of which it keeps each segment's bytes. On a
/// little-endian host the result is a function of the arguments alone. The
/// builder indexes into what it reads and adds in 32 bits, so it is handed
/// only an executable whose headers and loadable sections were checked, a
/// bootloader of at least the minimum length, and a table whose entries
/// were checked. The ELF reader under it asserts that the headers lie on
/// four-byte boundaries in memory. The section header table is checked to
/// lie on such a boundary of the file, and the file is parsed from a copy
/// in a buffer of `words` 32-bit words, seen as bytes through
/// `bytemuck::cast_slice_mut`: such a buffer starts on such a boundary.
#[verifier::external_body]
fn build_payloads(
    chip_magic: u32,
    executable: &[u8],
    words: usize,
    bootloader: Option<Vec<u8>>,
    table: Option<Vec<u8>>,
    table_offset: u32,
    capacity_id: u8,
) -> (r: Result<Vec<Vec<u8>>, BuilderError>)
    requires
        executable_ok(executable@),
        4 * words >= executable@.len(),
        bootloader matches Some(b) ==> b@.len() >= MIN_BOOTLOADER_LEN,
        table matches Some(t) ==> table_layout_ok(t@),
    ensures
        built_view(r) == built_payloads(
            chip_magic,
            executable@,
            bytes_view(bootloader),
            bytes_view(table),
            table_offset,
            capacity_id,
        ),
{
    let mut buffer = vec![0u32; words];
    let file = &mut cast_slice_mut(&mut buffer)[..executable.len()];
    file.copy_from_slice(executable);
    let image = ElfFirmwareImage::try_from(&*file)?;
    let chip = Chip::from_magic(chip_magic)?;
    let size = BuilderFlashSize::from_detected(capacity_id)?;
    let settings = FlashSettings::new(None, Some(size), None);
    let mut data = FlashData::new(None, None, Some(table_offset), None, settings, 0)?;
    data.bootloader = bootloader;
    data.partition_table = table.map(BinaryTable::try_from_bytes).transpose()?;
    let crystal = XtalFrequency::default(chip);
    let format = chip.into_target().get_flash_image(&image, data, None, crystal)?;
    Ok(format.flash_segments().map(|s| s.data.into_owned()).collect())
}

/// What placing the builder's payloads comes to. Without payloads, or with
/// other than three of them, no application image was built. A supplied
/// bootloader must come back as the builder's first payload, but for its
/// header and digest. A supplied table is placed as it was supplied, byte
/// for byte; the builder's own table is placed where none was supplied. The
/// three segments stand at the family's offsets and must not reach into
/// each other.
pub open spec fn placed(
    chip: ChipProfile,
    payloads: Option<Seq<Seq<u8>>>,
    bootloader: Option<Seq<u8>>,
    table: Option<Seq<u8>>,
) -> Result<ImageSetModel, AssemblyError> {
    match payloads {
        None => Err(AssemblyError::InvalidExecutable),
        Some(p) => if p.len() != 3 {
            Err(AssemblyError::InvalidExecutable)
        } else if bootloader matches Some(b) && !same_bootloader(b, p[0]) {
            Err(AssemblyError::InvalidBootloader)
        } else {
            let set = ImageSetModel {
                chip,
                bootloader: p[0],
                partition_table: match table {
                    Some(t) => t,
                    None => p[1],
                },
                application: p[2],
            };
            if ordered(set.segments()) && APPLICATION_OFFSET + p[2].len() <= u32::MAX {
                Ok(set)
            } else {
                Err(AssemblyError::SegmentOverlap)
            }
        },
    }
}

/// What assembling comes to, step by step: the bootloader is chosen, the
/// table and the executable must fit the flash part, the builder builds the
/// payloads, and these are placed.
pub open spec fn assembled(
    chip: ChipProfile,
    executable: Seq<u8>,
    bootloader: Option<Seq<u8>>,
    table: Option<Seq<u8>>,
    flash: FlashSize,
) -> Result<ImageSetModel, AssemblyError> {
    if bootloader is None && !chip.spec_has_default_bootloader() {
        Err(AssemblyError::MissingBootloader)
    } else if bootloader matches Some(b) && !bootloader_ok(b) {
        Err(AssemblyError::InvalidBootloader)
    } else if table matches Some(t) && !table_fits(t, flash) {
        Err(AssemblyError::MalformedPartitionTable)
    } else if !executable_fits(executable, flash) {
        Err(AssemblyError::InvalidExecutable)
    } else {
        placed(
            chip,
            built_payloads(
                chip.spec_detect_magic(),
                executable,
                bootloader,
                table,
                PARTITION_TABLE_OFFSET,
                flash.spec_capacity_id(),
            ),
            bootloader,
            table,
        )
    }
}

/// The three segments of one chip family, checked: each stands at the
/// family's offset for it and ends before the next begins.
#[derive(Debug)]
pub struct ImageSet {
    chip: ChipProfile,
    bootloader: FlashSegment,
    partition_table: FlashSegment,
    application: FlashSegment,
}

impl View for ImageSet {
    type V = ImageSetModel;

    closed spec fn view(&self) -> ImageSetModel {
        ImageSetModel {
            chip: self.chip,
            bootloader: self.bootloader.payload@,
            partition_table: self.partition_table.payload@,
            application: self.application.payload@,
        }
    }
}

/// The view of an outcome of assembling.
pub open spec fn outcome_view(r: Result<ImageSet, AssemblyError>) -> Result<
    ImageSetModel,
    AssemblyError,
> {
    match r {
        Ok(set) => Ok(set@),
        Err(e) => Err(e),
    }
}

/// The snapshot that the asset endpoints serve: the family's label and the
/// three payloads, fixed once and read from then on.
#[derive(Debug)]
pub struct PartsData {
    pub chip: String,
    pub bootloader: Vec<u8>,
    pub partitions: Vec<u8>,
    pub firmware: Vec<u8>,
}

impl ImageSet {
    #[verifier::type_invariant]
    spec fn valid(self) -> bool {
        &&& self.bootloader.offset == self.chip.spec_bootloader_offset()
        &&& self.partition_table.offset == PARTITION_TABLE_OFFSET
        &&& self.application.offset == APPLICATION_OFFSET
        &&& self.bootloader.offset + self.bootloader.payload@.len() <= PARTITION_TABLE_OFFSET
        &&& PARTITION_TABLE_OFFSET + self.partition_table.payload@.len() <= APPLICATION_OFFSET
        &&& APPLICATION_OFFSET + self.application.payload@.len() <= u32::MAX
    }

    /// The chip family that the set was assembled for.
    pub fn chip(&self) -> (chip: ChipProfile)
        ensures
            chip == self@.chip,
    {
        self.chip
    }

    /// The bootloader segment.
    pub fn bootloader(&self) -> (segment: &FlashSegment)
        ensures
            segment@ == self@.segments()[0],
            ordered(self@.segments()),
    {
        proof {
            use_type_invariant(self);
        }
        &self.bootloader
    }

    /// The partition table segment.
    pub fn partition_table(&self) -> (segment: &FlashSegment)
        ensures
            segment@ == self@.segments()[1],
            ordered(self@.segments()),
    {
        proof {
            use_type_invariant(self);
        }
        &self.partition_table
    }

    /// The application segment.
    pub fn application(&self) -> (segment: &FlashSegment)
        ensures
            segment@ == self@.segments()[2],
            ordered(self@.segments()),
    {
        proof {
            use_type_invariant(self);
        }
        &self.application
    }

    /// The three segments, in the order in which they are written:
    /// bootloader, partition table, application.
    pub fn segments(&self) -> (segments: Vec<&FlashSegment>)
        ensures
            segments@.len() == 3,
            forall|i: int| 0 <= i < 3 ==> (#[trigger] segments@[i])@ == self@.segments()[i],
            ordered(self@.segments()),
    {
        proof {
            use_type_invariant(self);
        }
        let mut segments: Vec<&FlashSegment> = Vec::new();
        segments.push(&self.bootloader);
        segments.push(&self.partition_table);
        segments.push(&self.application);
        segments
    }

    /// The snapshot to serve: the family's label and the three payloads.
    pub fn into_parts(self) -> (parts: PartsData)
        ensures
            parts.chip@ == self@.chip.spec_label(),
            parts.bootloader@ == self@.bootloader,
            parts.partitions@ == self@.partition_table,
            parts.firmware@ == self@.application,
    {
        PartsData {
            chip: self.chip.label().to_owned(),
            bootloader: self.bootloader.payload,
            partitions: self.partition_table.payload,
            firmware: self.application.payload,
        }
    }
}

fn bootloader_kept(supplied: &Vec<u8>, built: &Vec<u8>) -> (r: bool)
    ensures
        r == same_bootloader(supplied@, built@),
{
    let n = supplied.len();
    if built.len() != n {
        return false;
    }
    if n <= IMAGE_HEADER_LEN + DIGEST_LEN {
        return true;
    }
    let end = n - DIGEST_LEN;
    let mut i: usize = IMAGE_HEADER_LEN;
    while i < end
        invariant
            IMAGE_HEADER_LEN <= i <= end,
            end == n - DIGEST_LEN,
            n == supplied@.len(),
            n == built@.len(),
            forall|k: int| IMAGE_HEADER_LEN <= k < i ==> built@[k] == supplied@[k],
        decreases end - i,
    {
        if built[i] != supplied[i] {
            return false;
        }
        i = i + 1;
    }
    true
}

/// Places the payloads that the builder returned, given the bootloader and
/// the table that were supplied. Three payloads make an image set: the
/// first must be the supplied bootloader but for its header and digest, a
/// supplied table takes the place of the second, and the segments are
/// checked for overlap at the family's offsets. Anything else is no image
/// set.
pub fn place_segments(
    chip: ChipProfile,
    payloads: Option<Vec<Vec<u8>>>,
    bootloader: Option<Vec<u8>>,
    table: Option<Vec<u8>>,
) -> (r: Result<ImageSet, AssemblyError>)
    ensures
        outcome_view(r) == placed(
            chip,
            payloads_view(payloads),
            bytes_view(bootloader),
            bytes_view(table),
        ),
{
    let mut list = match payloads {
        Some(list) => list,
        None => {
            return Err(AssemblyError::InvalidExecutable);
        },
    };
    if list.len() != 3 {
        return Err(AssemblyError::InvalidExecutable);
    }
    let ghost views = list@.map_values(|v: Vec<u8>| v@);
    let application = list.pop().unwrap();
    let built_table = list.pop().unwrap();
    let built_bootloader = list.pop().unwrap();
    assert(views[0] == built_bootloader@ && views[1] == built_table@ && views[2]
        == application@);
    if let Some(supplied) = &bootloader {
        if !bootloader_kept(supplied, &built_bootloader) {
            return Err(AssemblyError::InvalidBootloader);
        }
    }
    let partition_table = match table {
        Some(supplied) => supplied,
        None => built_table,
    };
    let ghost set = ImageSetModel {
        chip,
        bootloader: built_bootloader@,
        partition_table: partition_table@,
        application: application@,
    };
    let boot_room = (PARTITION_TABLE_OFFSET - chip.bootloader_offset()) as usize;
    let table_room = (APPLICATION_OFFSET - PARTITION_TABLE_OFFSET) as usize;
    let app_room = (u32::MAX - APPLICATION_OFFSET) as usize;
    if built_bootloader.len() > boot_room || partition_table.len() > table_room
        || application.len() > app_room {
        proof {
            let segments = set.segments();
            if built_bootloader.len() > boot_room {
                assert(segments[0].offset + segments[0].payload.len() > segments[1].offset);
            } else if partition_table.len() > table_room {
                assert(segments[1].offset + segments[1].payload.len() > segments[2].offset);
            }
        }
        return Err(AssemblyError::SegmentOverlap);
    }
    Ok(
        ImageSet {
            chip,
            bootloader: FlashSegment {
                offset: chip.bootloader_offset(),
                payload: built_bootloader,
            },
            partition_table: FlashSegment {
                offset: PARTITION_TABLE_OFFSET,
                payload: partition_table,
            },
            application: FlashSegment { offset: APPLICATION_OFFSET, payload: application },
        },
    )
}

/// The view of an optional table.
pub open spec fn table_view(table: Option<&PartitionTable>) -> Option<Seq<u8>> {
    match table {
        Some(t) => Some(t@),
        None => None,
    }
}

/// Assembles the image set of a chip family from a checked executable, an
/// optional bootloader and an optional partition table, for a flash part of
/// the given size. The outcome is the one that `assembled` describes: the
/// same inputs give the same image set or the same error. A supplied table
/// is written as it was supplied; a supplied bootloader is written with the
/// flash settings in its header and its digest renewed.
pub fn assemble(
    chip: ChipProfile,
    executable: &ExecutableImage,
    bootloader: Option<Vec<u8>>,
    table: Option<&PartitionTable>,
    flash: FlashSize,
) -> (r: Result<ImageSet, AssemblyError>)
    ensures
        outcome_view(r) == assembled(
            chip,
            executable@,
            bytes_view(bootloader),
            table_view(table),
            flash,
        ),
        r matches Ok(set) ==> {
            &&& set@.chip == chip
            &&& ordered(set@.segments())
            &&& table matches Some(t) ==> set@.partition_table == t@
            &&& bootloader matches Some(b) ==> same_bootloader(b@, set@.bootloader)
        },
{
    let chosen = match choose_bootloader(bootloader, chip.has_default_bootloader()) {
        Ok(Bootloader::Supplied(b)) => Some(b),
        Ok(Bootloader::Bundled) => None,
        Err(e) => {
            return Err(e);
        },
    };
    let (for_builder, supplied_table) = match table {
        Some(t) => {
            if !t.fits(flash) {
                return Err(AssemblyError::MalformedPartitionTable);
            }
            (
                Some(slice_to_vec(t.as_bytes().as_slice())),
                Some(slice_to_vec(t.as_bytes().as_slice())),
            )
        },
        None => (None, None),
    };
    if !executable.fits(flash) {
        return Err(AssemblyError::InvalidExecutable);
    }
    let supplied_bootloader = match &chosen {
        Some(b) => Some(slice_to_vec(b.as_slice())),
        None => None,
    };
    let file = executable.as_bytes().as_slice();
    let built = build_payloads(
        chip.detect_magic(),
        file,
        file.len() / 4 + 1,
        chosen,
        for_builder,
        PARTITION_TABLE_OFFSET,
        flash.capacity_id(),
    );
    let payloads = match built {
        Ok(list) => Some(list),
        Err(_) => None,
    };
    proof {
        lemma_placed_keeps_what_was_supplied(
            chip,
            payloads_view(payloads),
            bytes_view(supplied_bootloader),
            bytes_view(supplied_table),
        );
    }
    place_segments(chip, payloads, supplied_bootloader, supplied_table)
}

/// The application image that is built from an executable alone, with the
/// bundled bootloader and the default partition table.
pub open spec fn firmware(chip: ChipProfile, executable: Seq<u8>, flash: FlashSize) -> Result<
    Seq<u8>,
    AssemblyError,
> {
    match assembled(chip, executable, None, None, flash) {
        Ok(set) => Ok(set.application),
        Err(e) => Err(e),
    }
}

/// Builds the application image of an executable for a chip family and a
/// flash size: the image header, the loadable sections as segments, the
/// checksum and the digest, as the family's bootloader reads them. The same
/// executable gives the same bytes.
pub fn build_firmware(chip: ChipProfile, executable: &ExecutableImage, flash: FlashSize) -> (r:
    Result<Vec<u8>, AssemblyError>)
    ensures
        match r {
            Ok(bytes) => firmware(chip, executable@, flash) == Ok::<Seq<u8>, AssemblyError>(
                bytes@,
            ),
            Err(e) => firmware(chip, executable@, flash) == Err::<Seq<u8>, AssemblyError>(e),
        },
{
    match assemble(chip, executable, None, None, flash) {
        Ok(set) => Ok(set.into_parts().firmware),
        Err(e) => Err(e),
    }
}

/// Whatever is placed belongs to the family it was placed for, has no
/// overlapping segments, holds a supplied table byte for byte, and holds a
/// supplied bootloader but for its header and digest.
pub proof fn lemma_placed_keeps_what_was_supplied(
    chip: ChipProfile,
    payloads: Option<Seq<Seq<u8>>>,
    bootloader: Option<Seq<u8>>,
    table: Option<Seq<u8>>,
)
    ensures
        placed(chip, payloads, bootloader, table) matches Ok(set) ==> {
            &&& set.chip == chip
            &&& ordered(set.segments())
            &&& table matches Some(t) ==> set.partition_table == t
            &&& bootloader matches Some(b) ==> same_bootloader(b, set.bootloader)
        },
{
}

} // verus!
