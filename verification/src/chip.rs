//! The supported chip families and their fixed flash layout.

use vstd::prelude::*;
use vstd::string::*;
use crate::error::AssemblyError;

verus! {

/// Offset of the partition table, the same for every family.
pub const PARTITION_TABLE_OFFSET: u32 = 0x8000;

/// Offset of the application image, the same for every family.
pub const APPLICATION_OFFSET: u32 = 0x1_0000;

/// A chip family: a closed set, each with its own bootloader offset.
#[derive(Clone, Copy, Debug, PartialEq, Eq, Structural)]
pub enum ChipProfile {
    Esp32,
    Esp32c3,
    Esp32s2,
    Esp32s3,
}

/// Lower-case form of the letters that occur in chip identifiers; every
/// other character stands for itself.
pub open spec fn fold_char(c: char) -> char {
    if c == 'E' {
        'e'
    } else if c == 'S' {
        's'
    } else if c == 'P' {
        'p'
    } else if c == 'C' {
        'c'
    } else {
        c
    }
}

/// An identifier with its hyphens removed and its letters folded.
pub open spec fn normalized(s: Seq<char>) -> Seq<char>
    decreases s.len(),
{
    if s.len() == 0 {
        Seq::empty()
    } else if s.last() == '-' {
        normalized(s.drop_last())
    } else {
        normalized(s.drop_last()).push(fold_char(s.last()))
    }
}

/// The family that a normalized identifier names, if any.
pub open spec fn family_named(n: Seq<char>) -> Option<ChipProfile> {
    if n == seq!['e', 's', 'p', '3', '2'] {
        Some(ChipProfile::Esp32)
    } else if n == seq!['e', 's', 'p', '3', '2', 'c', '3'] {
        Some(ChipProfile::Esp32c3)
    } else if n == seq!['e', 's', 'p', '3', '2', 's', '2'] {
        Some(ChipProfile::Esp32s2)
    } else if n == seq!['e', 's', 'p', '3', '2', 's', '3'] {
        Some(ChipProfile::Esp32s3)
    } else {
        None
    }
}

/// The family that an identifier resolves to: hyphens and the case of
/// letters do not matter, so `ESP32-C3` and `esp32c3` name the same one.
pub open spec fn resolved(identifier: Seq<char>) -> Option<ChipProfile> {
    family_named(normalized(identifier))
}

fn fold(c: char) -> (r: char)
    ensures
        r == fold_char(c),
{
    if c == 'E' {
        'e'
    } else if c == 'S' {
        's'
    } else if c == 'P' {
        'p'
    } else if c == 'C' {
        'c'
    } else {
        c
    }
}

fn normalize(identifier: &str) -> (out: Vec<char>)
    ensures
        out@ == normalized(identifier@),
{
    let n: usize = identifier.unicode_len();
    let mut out: Vec<char> = Vec::new();
    let mut i: usize = 0;
    while i < n
        invariant
            n == identifier@.len(),
            i <= n,
            out@ == normalized(identifier@.subrange(0, i as int)),
        decreases n - i,
    {
        let c = identifier.get_char(i);
        proof {
            let next = identifier@.subrange(0, i + 1);
            assert(next.drop_last() =~= identifier@.subrange(0, i as int));
            assert(next.last() == c);
        }
        if c != '-' {
            out.push(fold(c));
        }
        i = i + 1;
    }
    proof {
        assert(identifier@.subrange(0, n as int) =~= identifier@);
    }
    out
}

impl ChipProfile {
    /// Offset at which the family's ROM loader looks for the bootloader.
    pub open spec fn spec_bootloader_offset(self) -> u32 {
        match self {
            ChipProfile::Esp32 | ChipProfile::Esp32s2 => 0x1000,
            ChipProfile::Esp32c3 | ChipProfile::Esp32s3 => 0,
        }
    }

    /// The family label that the flashing client knows.
    pub open spec fn spec_label(self) -> Seq<char> {
        match self {
            ChipProfile::Esp32 => "ESP32"@,
            ChipProfile::Esp32c3 => "ESP32-C3"@,
            ChipProfile::Esp32s2 => "ESP32-S2"@,
            ChipProfile::Esp32s3 => "ESP32-S3"@,
        }
    }

    /// The magic value that a chip of the family reports of itself, and by
    /// which the image builder tells the families apart.
    pub open spec fn spec_detect_magic(self) -> u32 {
        match self {
            ChipProfile::Esp32 => 0x00f0_1d83,
            ChipProfile::Esp32c3 => 0x6921_506f,
            ChipProfile::Esp32s2 => 0x0000_07c6,
            ChipProfile::Esp32s3 => 0x9,
        }
    }

    /// Resolves a chip identifier. Fails with `UnsupportedChip` exactly when
    /// the identifier names none of the families.
    pub fn resolve(identifier: &str) -> (r: Result<ChipProfile, AssemblyError>)
        ensures
            r == match resolved(identifier@) {
                Some(chip) => Ok::<ChipProfile, AssemblyError>(chip),
                None => Err(AssemblyError::UnsupportedChip),
            },
            r matches Ok(chip) ==> chip.spec_bootloader_offset() < PARTITION_TABLE_OFFSET
                < APPLICATION_OFFSET,
    {
        let n = normalize(identifier);
        let len = n.len();
        if len < 5 || n[0] != 'e' || n[1] != 's' || n[2] != 'p' || n[3] != '3' || n[4] != '2' {
            return Err(AssemblyError::UnsupportedChip);
        }
        if len == 5 {
            assert(n@ =~= seq!['e', 's', 'p', '3', '2']);
            return Ok(ChipProfile::Esp32);
        }
        if len != 7 {
            return Err(AssemblyError::UnsupportedChip);
        }
        let a = n[5];
        let b = n[6];
        if a == 'c' && b == '3' {
            assert(n@ =~= seq!['e', 's', 'p', '3', '2', 'c', '3']);
            Ok(ChipProfile::Esp32c3)
        } else if a == 's' && b == '2' {
            assert(n@ =~= seq!['e', 's', 'p', '3', '2', 's', '2']);
            Ok(ChipProfile::Esp32s2)
        } else if a == 's' && b == '3' {
            assert(n@ =~= seq!['e', 's', 'p', '3', '2', 's', '3']);
            Ok(ChipProfile::Esp32s3)
        } else {
            Err(AssemblyError::UnsupportedChip)
        }
    }

    /// Every supported family, in the order of the manifest.
    pub fn all() -> (chips: Vec<ChipProfile>)
        ensures
            chips@ == seq![
                ChipProfile::Esp32,
                ChipProfile::Esp32c3,
                ChipProfile::Esp32s2,
                ChipProfile::Esp32s3,
            ],
    {
        let mut chips: Vec<ChipProfile> = Vec::new();
        chips.push(ChipProfile::Esp32);
        chips.push(ChipProfile::Esp32c3);
        chips.push(ChipProfile::Esp32s2);
        chips.push(ChipProfile::Esp32s3);
        assert(chips@ =~= seq![
            ChipProfile::Esp32,
            ChipProfile::Esp32c3,
            ChipProfile::Esp32s2,
            ChipProfile::Esp32s3,
        ]);
        chips
    }

    #[verifier::when_used_as_spec(spec_bootloader_offset)]
    pub fn bootloader_offset(self) -> (offset: u32)
        ensures
            offset == self.spec_bootloader_offset(),
    {
        match self {
            ChipProfile::Esp32 | ChipProfile::Esp32s2 => 0x1000,
            ChipProfile::Esp32c3 | ChipProfile::Esp32s3 => 0,
        }
    }

    pub fn partition_table_offset(self) -> (offset: u32)
        ensures
            offset == PARTITION_TABLE_OFFSET,
    {
        PARTITION_TABLE_OFFSET
    }

    pub fn application_offset(self) -> (offset: u32)
        ensures
            offset == APPLICATION_OFFSET,
    {
        APPLICATION_OFFSET
    }

    /// The family label, as the manifest spells it.
    pub fn label(self) -> (text: &'static str)
        ensures
            text@ == self.spec_label(),
    {
        match self {
            ChipProfile::Esp32 => "ESP32",
            ChipProfile::Esp32c3 => "ESP32-C3",
            ChipProfile::Esp32s2 => "ESP32-S2",
            ChipProfile::Esp32s3 => "ESP32-S3",
        }
    }

    /// The magic value that a chip of the family reports of itself.
    #[verifier::when_used_as_spec(spec_detect_magic)]
    pub fn detect_magic(self) -> (magic: u32)
        ensures
            magic == self.spec_detect_magic(),
    {
        match self {
            ChipProfile::Esp32 => 0x00f0_1d83,
            ChipProfile::Esp32c3 => 0x6921_506f,
            ChipProfile::Esp32s2 => 0x0000_07c6,
            ChipProfile::Esp32s3 => 0x9,
        }
    }

    /// Whether the image builder bundles a bootloader for the family. It
    /// does for each of them.
    pub open spec fn spec_has_default_bootloader(self) -> bool {
        true
    }

    /// Whether the image builder bundles a bootloader for the family.
    #[verifier::when_used_as_spec(spec_has_default_bootloader)]
    pub fn has_default_bootloader(self) -> (bundled: bool)
        ensures
            bundled == self.spec_has_default_bootloader(),
    {
        true
    }
}

/// The three offsets of a family are strictly ascending: the bootloader
/// comes first, then the partition table, then the application.
pub proof fn lemma_offsets_ascending(chip: ChipProfile)
    ensures
        chip.spec_bootloader_offset() < PARTITION_TABLE_OFFSET < APPLICATION_OFFSET,
{
}

} // verus!
