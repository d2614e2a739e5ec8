//! Assembles the three flash segments of an Espressif device (bootloader,
//! partition table, application image) from a compiled executable, and
//! describes them to a browser-based flashing client.
//!
//! The executable and the partition table are validated here before the
//! image builder of `espflash` sees them; what the builder hands back is
//! placed at the fixed offsets of the chip family and checked for overlap.

pub mod bytes;
pub mod chip;
pub mod error;
pub mod executable;
pub mod flash;
pub mod image;
pub mod manifest;
pub mod table;
