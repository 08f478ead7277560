//! Where the running kernel image lies in physical memory.
//!
//! The image is mapped at a fixed offset: the virtual address of each of
//! its bytes is the physical address plus `KZERO`. The link step defines a
//! symbol at each section boundary; the ranges here are those boundaries
//! as physical addresses.

use crate::interval::Interval;
use crate::mem::{PhysAddr, PhysRange, VirtAddr};
use crate::param::KZERO;
use vstd::prelude::*;

verus! {

/// The virtual addresses of the symbols that the link step defines at the
/// section boundaries of the image. The image itself starts at `KZERO`.
/// The addresses are plain numbers: nothing is ever read through them.
#[derive(Clone, Copy, Debug, PartialEq, Eq)]
pub struct ImageSymbols {
    /// End of the boot text, which starts the image.
    pub eboottext: usize,
    pub text: usize,
    pub etext: usize,
    pub rodata: usize,
    pub erodata: usize,
    pub data: usize,
    pub edata: usize,
    pub bss: usize,
    pub ebss: usize,
    /// End of the image.
    pub end: usize,
    pub early_pagetables: usize,
    pub eearly_pagetables: usize,
}

/// The physical address that the virtual address `va` of the image is
/// mapped to.
pub open spec fn phys_of(va: int) -> int {
    va - KZERO
}

/// The virtual address that the physical address `pa` is mapped at,
/// wrapped to 64 bits.
pub open spec fn virt_of(pa: int) -> int {
    if pa + KZERO > u64::MAX {
        pa + KZERO - 0x1_0000_0000_0000_0000
    } else {
        pa + KZERO
    }
}

/// The physical range that the virtual addresses from `start` up to `end`
/// are mapped to.
pub open spec fn phys_span(start: int, end: int) -> Interval {
    Interval { start: phys_of(start), end: phys_of(end) }
}

/// Virtual address of the start of the image.
pub fn base_addr() -> (base: usize)
    ensures
        base == KZERO as usize,
{
    KZERO as usize
}

/// The physical address of the virtual address `va`. This holds only of
/// addresses in the fixed-offset mapping of the image: `va` must not lie
/// below `KZERO`, and for an address that is mapped otherwise the result
/// is wrong.
pub fn from_virt_to_physaddr(va: VirtAddr) -> (pa: PhysAddr)
    requires
        va@ >= KZERO,
    ensures
        pa@ == phys_of(va@),
{
    PhysAddr::new(va.addr() as u64 - KZERO)
}

/// The physical address of the virtual address `a`, which is that of a
/// pointer into the image. As for `from_virt_to_physaddr`, `a` must not lie
/// below `KZERO`.
pub fn from_ptr_to_physaddr_offset_from_kzero(a: usize) -> (pa: PhysAddr)
    requires
        a >= KZERO,
    ensures
        pa@ == phys_of(a as int),
{
    from_virt_to_physaddr(VirtAddr::new(a))
}

/// The virtual address at which the physical address `pa` can be reached
/// through the fixed-offset mapping, for a caller to make a pointer of.
/// The sum wraps around at 64 bits.
pub fn physaddr_as_ptr_mut_offset_from_kzero(pa: PhysAddr) -> (va: usize)
    ensures
        va == virt_of(pa@) as usize,
        usize::BITS == 64 ==> va == virt_of(pa@),
{
    pa.addr().wrapping_add(KZERO) as usize
}

/// Taking an address of the image to physical memory and back gives
/// the address again, and `KZERO` itself is physical address zero.
pub proof fn law_virt_phys_round_trip(va: VirtAddr)
    requires
        va@ >= KZERO,
    ensures
        virt_of(phys_of(va@)) == va@,
        phys_of(KZERO as int) == 0,
{
}

/// The boot text: from the start of the image to `eboottext`.
pub fn boottext_range(syms: &ImageSymbols) -> (range: PhysRange)
    requires
        KZERO <= syms.eboottext,
    ensures
        range@ == phys_span(KZERO as int, syms.eboottext as int),
        range@.wf(),
{
    PhysRange(
        from_virt_to_physaddr(VirtAddr::new(base_addr()))..from_virt_to_physaddr(
            VirtAddr::new(syms.eboottext),
        ),
    )
}

/// The kernel text: from `text` to `etext`.
pub fn text_range(syms: &ImageSymbols) -> (range: PhysRange)
    requires
        KZERO <= syms.text <= syms.etext,
    ensures
        range@ == phys_span(syms.text as int, syms.etext as int),
        range@.wf(),
{
    PhysRange(
        from_virt_to_physaddr(VirtAddr::new(syms.text))..from_virt_to_physaddr(
            VirtAddr::new(syms.etext),
        ),
    )
}

/// The read-only data: from `rodata` to `erodata`.
pub fn rodata_range(syms: &ImageSymbols) -> (range: PhysRange)
    requires
        KZERO <= syms.rodata <= syms.erodata,
    ensures
        range@ == phys_span(syms.rodata as int, syms.erodata as int),
        range@.wf(),
{
    PhysRange(
        from_virt_to_physaddr(VirtAddr::new(syms.rodata))..from_virt_to_physaddr(
            VirtAddr::new(syms.erodata),
        ),
    )
}

/// The writable data: from `data` to `edata`.
pub fn data_range(syms: &ImageSymbols) -> (range: PhysRange)
    requires
        KZERO <= syms.data <= syms.edata,
    ensures
        range@ == phys_span(syms.data as int, syms.edata as int),
        range@.wf(),
{
    PhysRange(
        from_virt_to_physaddr(VirtAddr::new(syms.data))..from_virt_to_physaddr(
            VirtAddr::new(syms.edata),
        ),
    )
}

/// The data that starts out as zero: from `bss` to `ebss`.
pub fn bss_range(syms: &ImageSymbols) -> (range: PhysRange)
    requires
        KZERO <= syms.bss <= syms.ebss,
    ensures
        range@ == phys_span(syms.bss as int, syms.ebss as int),
        range@.wf(),
{
    PhysRange(
        from_virt_to_physaddr(VirtAddr::new(syms.bss))..from_virt_to_physaddr(
            VirtAddr::new(syms.ebss),
        ),
    )
}

/// The whole image: from its start to `end`.
pub fn total_kernel_range(syms: &ImageSymbols) -> (range: PhysRange)
    requires
        KZERO <= syms.end,
    ensures
        range@ == phys_span(KZERO as int, syms.end as int),
        range@.wf(),
{
    PhysRange(
        from_virt_to_physaddr(VirtAddr::new(base_addr()))..from_virt_to_physaddr(
            VirtAddr::new(syms.end),
        ),
    )
}

/// The space set aside for the page tables of early boot: from
/// `early_pagetables` to `eearly_pagetables`.
pub fn early_pages_range(syms: &ImageSymbols) -> (range: PhysRange)
    requires
        KZERO <= syms.early_pagetables <= syms.eearly_pagetables,
    ensures
        range@ == phys_span(syms.early_pagetables as int, syms.eearly_pagetables as int),
        range@.wf(),
{
    PhysRange::new(
        from_virt_to_physaddr(VirtAddr::new(syms.early_pagetables)),
        from_virt_to_physaddr(VirtAddr::new(syms.eearly_pagetables)),
    )
}

} // verus!
