//! Peripheral device stubs: block-oriented storage units that hold a unit
//! number and one block of words. The execution core never touches them;
//! they are the extension point for device instructions.

pub mod disk_drum;
pub mod magnetic_tape;
