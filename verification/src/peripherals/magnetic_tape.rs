//! A magnetic tape unit stub: a numbered unit holding one block of words.

use crate::word::{Word, WordView};
use vstd::prelude::*;

verus! {

/// Number of words in a tape block.
pub const TAPE_BLOCK_SIZE: usize = 100;

/// A magnetic tape unit: its unit number and one block of words.
pub struct MagneticTapeUnit {
    unit_number: u8,
    block: [Word; TAPE_BLOCK_SIZE],
}

/// The mathematical model of a tape unit.
#[verifier::ext_equal]
pub struct MagneticTapeUnitView {
    pub unit_number: u8,
    pub block: Seq<WordView>,
}

impl View for MagneticTapeUnit {
    type V = MagneticTapeUnitView;

    closed spec fn view(&self) -> MagneticTapeUnitView {
        MagneticTapeUnitView {
            unit_number: self.unit_number,
            block: self.block@.map_values(|w: Word| w@),
        }
    }
}

impl MagneticTapeUnit {
    /// A unit with the given number and block contents.
    pub fn new(number: u8, contents: [Word; TAPE_BLOCK_SIZE]) -> (r: MagneticTapeUnit)
        ensures
            r@.unit_number == number,
            r@.block == contents@.map_values(|w: Word| w@),
    {
        MagneticTapeUnit { unit_number: number, block: contents }
    }
}

} // verus!
