//! The size of the flash part that the image set is built for.

use vstd::prelude::*;

verus! {

/// Capacity of the flash part. It sets the size field of the image header,
/// scales the default application partition and bounds what a partition
/// table or an executable may occupy.
#[derive(Clone, Copy, Debug, PartialEq, Eq, Structural)]
pub enum FlashSize {
    Mb1,
    Mb2,
    Mb4,
    Mb8,
    Mb16,
}

impl FlashSize {
    /// The capacity in bytes.
    pub open spec fn spec_bytes(self) -> u32 {
        match self {
            FlashSize::Mb1 => 0x10_0000,
            FlashSize::Mb2 => 0x20_0000,
            FlashSize::Mb4 => 0x40_0000,
            FlashSize::Mb8 => 0x80_0000,
            FlashSize::Mb16 => 0x100_0000,
        }
    }

    /// The capacity byte that a flash part of this size reports about itself.
    pub open spec fn spec_capacity_id(self) -> u8 {
        match self {
            FlashSize::Mb1 => 0x14,
            FlashSize::Mb2 => 0x15,
            FlashSize::Mb4 => 0x16,
            FlashSize::Mb8 => 0x17,
            FlashSize::Mb16 => 0x18,
        }
    }

    #[verifier::when_used_as_spec(spec_bytes)]
    pub fn bytes(self) -> (n: u32)
        ensures
            n == self.spec_bytes(),
    {
        match self {
            FlashSize::Mb1 => 0x10_0000,
            FlashSize::Mb2 => 0x20_0000,
            FlashSize::Mb4 => 0x40_0000,
            FlashSize::Mb8 => 0x80_0000,
            FlashSize::Mb16 => 0x100_0000,
        }
    }

    #[verifier::when_used_as_spec(spec_capacity_id)]
    pub fn capacity_id(self) -> (id: u8)
        ensures
            id == self.spec_capacity_id(),
    {
        match self {
            FlashSize::Mb1 => 0x14,
            FlashSize::Mb2 => 0x15,
            FlashSize::Mb4 => 0x16,
            FlashSize::Mb8 => 0x17,
            FlashSize::Mb16 => 0x18,
        }
    }
}

impl Default for FlashSize {
    /// Four megabytes: the size every image set is built for unless the
    /// caller says otherwise.
    fn default() -> (size: FlashSize)
        ensures
            size == FlashSize::Mb4,
    {
        FlashSize::Mb4
    }
}

} // verus!
