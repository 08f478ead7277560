//! Configuration constants of the kernel's address space.

use vstd::prelude::*;

verus! {

/// Virtual address at which physical address zero is mapped: the kernel
/// image runs at `physical + KZERO`. It is held in 64 bits, as physical
/// addresses are; a virtual address can only reach it where a pointer has
/// 64 bits too.
pub const KZERO: u64 = 0xffff_8000_0000_0000;

} // verus!
