//! The ways in which assembling an image set can fail.

use vstd::prelude::*;

verus! {

/// Why no image set was produced. Every one of these is fatal: there is no
/// partial result.
#[derive(Clone, Copy, Debug, PartialEq, Eq, Structural)]
pub enum AssemblyError {
    /// The chip identifier names no supported family.
    UnsupportedChip,
    /// The partition table bytes are not a table this library accepts.
    MalformedPartitionTable,
    /// The executable cannot be turned into an application image.
    InvalidExecutable,
    /// No bootloader was supplied and the chip family bundles none.
    MissingBootloader,
    /// A supplied bootloader is not a bootloader image.
    InvalidBootloader,
    /// A segment reaches into the one that follows it.
    SegmentOverlap,
}

impl AssemblyError {
    /// The text of the message for each error.
    pub open spec fn spec_message(self) -> Seq<char> {
        match self {
            AssemblyError::UnsupportedChip => "unsupported chip"@,
            AssemblyError::MalformedPartitionTable => "malformed partition table"@,
            AssemblyError::InvalidExecutable => "invalid executable"@,
            AssemblyError::MissingBootloader => "missing bootloader"@,
            AssemblyError::InvalidBootloader => "invalid bootloader"@,
            AssemblyError::SegmentOverlap => "flash segments overlap"@,
        }
    }

    /// A short description for the operator.
    pub fn message(&self) -> (text: &'static str)
        ensures
            text@ == self.spec_message(),
    {
        match self {
            AssemblyError::UnsupportedChip => "unsupported chip",
            AssemblyError::MalformedPartitionTable => "malformed partition table",
            AssemblyError::InvalidExecutable => "invalid executable",
            AssemblyError::MissingBootloader => "missing bootloader",
            AssemblyError::InvalidBootloader => "invalid bootloader",
            AssemblyError::SegmentOverlap => "flash segments overlap",
        }
    }
}

} // verus!
