//! The faults that decoding and execution surface as explicit results
//! instead of aborting the run, so that a host can catch and report them.

use vstd::prelude::*;

verus! {

/// A fault raised while decoding or executing an instruction.
#[derive(Clone, Copy, Debug, PartialEq, Eq, Structural)]
pub enum Fault {
    /// An index-register selector outside 1 through 6.
    InvalidIndex,
    /// A field specification an operation cannot accept: an index-register
    /// copy whose window excludes the sign and both significant index
    /// bytes, or a window outside the data model's `(L, R)` range of 0
    /// through 5 (a reversed store window included) reaching an operation
    /// that reads or writes by it.
    InvalidFieldSpec,
    /// Add, multiply or divide invoked with a sign-only field
    /// specification.
    ArithmeticDomainFault,
    /// A resolved address outside the memory range 0 through 3999, or a
    /// program counter that leaves that range without halting.
    AddressOutOfRange,
}

} // verus!
