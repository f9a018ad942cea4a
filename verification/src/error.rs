//! Failure kinds shared by all stages of the backend.
use vstd::prelude::*;

verus! {

/// Why a function could not be compiled.
///
/// Compilation of one function is all-or-nothing: any of these aborts it.
#[derive(Debug, Clone, Copy, PartialEq, Eq, Structural)]
pub enum CodegenError {
    /// The input breaks an invariant an earlier stage should have upheld,
    /// such as a reference to a virtual register that was never defined or
    /// an operand of the wrong kind.
    MalformedIr,
    /// The input is valid but asks for a feature that does not exist yet:
    /// a seventh call argument, an array on the stack, a register spill.
    Unimplemented,
    /// The input does not fit: a stack request larger than one alignment
    /// unit, or a frame deeper than the address space.
    ResourceExhausted,
}

} // verus!
