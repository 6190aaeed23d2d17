//! A disk or drum unit stub: a numbered unit holding one block of words.

use crate::word::{Word, WordView};
use vstd::prelude::*;

verus! {

/// Number of words in a disk or drum block.
pub const DISK_DRUM_BLOCK_SIZE: usize = 100;

/// A disk or drum unit: its unit number and one block of words.
pub struct DiskDrumUnit {
    unit_number: u8,
    block: [Word; DISK_DRUM_BLOCK_SIZE],
}

/// The mathematical model of a disk or drum unit.
#[verifier::ext_equal]
pub struct DiskDrumUnitView {
    pub unit_number: u8,
    pub block: Seq<WordView>,
}

impl View for DiskDrumUnit {
    type V = DiskDrumUnitView;

    closed spec fn view(&self) -> DiskDrumUnitView {
        DiskDrumUnitView {
            unit_number: self.unit_number,
            block: self.block@.map_values(|w: Word| w@),
        }
    }
}

impl DiskDrumUnit {
    /// A unit with the given number and block contents.
    pub fn new(number: u8, contents: [Word; DISK_DRUM_BLOCK_SIZE]) -> (r: DiskDrumUnit)
        ensures
            r@.unit_number == number,
            r@.block == contents@.map_values(|w: Word| w@),
    {
        DiskDrumUnit { unit_number: number, block: contents }
    }
}

} // verus!
