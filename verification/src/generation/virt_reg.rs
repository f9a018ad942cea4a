//! The allocation under the name of the allocator that builds it.
//!
//! An allocation is built in two phases: `generate_map_from` finds the
//! lifetimes, `alloc_regs` hands out the locations.
use vstd::prelude::*;
use crate::generation::vreg_alloc::VRegAllocation;
pub use crate::generation::vreg_alloc::{Register, VRegAlloc, VRegContentKind, VRegInfo};

verus! {

/// Builds the lifetime map of a block and allocates its virtual registers.
pub type VRegAllocator<R> = VRegAllocation<R>;

} // verus!
