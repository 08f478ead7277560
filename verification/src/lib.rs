//! Typed physical and virtual addresses, half-open address ranges, and the
//! fixed-offset mapping between a kernel image's virtual and physical
//! locations.

pub mod align;
pub mod fdt;
pub mod interval;
pub mod kmem;
pub mod mem;
pub mod param;
