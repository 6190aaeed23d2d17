//! Emulator core for a five-byte sign-magnitude word machine: the word and
//! field-specification data model, field-windowed copy/store/arithmetic
//! primitives, byte-granular shifts, an instruction decoder, and the
//! fetch-decode-execute run loop.

pub mod computer;
pub mod fault;
pub mod field;
pub mod instruction;
pub mod instruction_functions;
pub mod magnitude;
pub mod peripherals;
pub mod word;
