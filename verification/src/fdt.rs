//! The part of a device tree that the range types read: the register
//! block of a node.

use crate::interval::Interval;
use vstd::prelude::*;

verus! {

/// Where a device's registers are: an address and, optionally, a length in
/// bytes.
#[derive(Clone, Copy, Debug, PartialEq, Eq)]
pub struct RegBlock {
    pub addr: u64,
    pub len: Option<u64>,
}

impl View for RegBlock {
    type V = Interval;

    /// The addresses of the block: from its address on, as many as its
    /// length says, none where it has no length.
    open spec fn view(&self) -> Interval {
        Interval::with_len(self.addr as int, self.len.unwrap_or(0) as nat)
    }
}

} // verus!
