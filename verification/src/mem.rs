//! Physical and virtual addresses, and half-open ranges over them.
//!
//! The two address spaces have a type each, and no conversion between
//! them: the one crossing is the fixed-offset mapping of the kernel image.

use crate::align::{
    lemma_mask_rounds_down, lemma_mask_rounds_up, lemma_pow2_positive, round_down, round_up,
};
use crate::fdt::RegBlock;
use crate::interval::{lemma_steps_empty, lemma_steps_unfold, Interval};
use core::cmp::Ordering;
use core::ops::Range;
use vstd::arithmetic::power2::{is_pow2, is_pow2_equiv, lemma2_to64, lemma_pow2};
use vstd::prelude::*;
use vstd::std_specs::ops::{AddSpec, SubSpec};

verus! {

pub const PAGE_SIZE_4K: usize = 4 << 10;

pub const PAGE_SIZE_2M: usize = 2 << 20;

pub const PAGE_SIZE_1G: usize = 1 << 30;

/// The page sizes are the powers of two that their names say.
pub proof fn lemma_page_sizes()
    ensures
        PAGE_SIZE_4K == 0x1000,
        PAGE_SIZE_2M == 0x20_0000,
        PAGE_SIZE_1G == 0x4000_0000,
        is_pow2(PAGE_SIZE_4K as int),
        is_pow2(PAGE_SIZE_2M as int),
        is_pow2(PAGE_SIZE_1G as int),
{
    assert(4usize << 10 == 0x1000) by (bit_vector);
    assert(2usize << 20 == 0x20_0000) by (bit_vector);
    assert(1usize << 30 == 0x4000_0000) by (bit_vector);
    lemma2_to64();
    lemma_pow2(12);
    lemma_pow2(21);
    lemma_pow2(30);
    is_pow2_equiv(0x1000);
    is_pow2_equiv(0x20_0000);
    is_pow2_equiv(0x4000_0000);
}

/// A location in the virtual address space that the kernel runs in. Its
/// view is the address as an integer.
#[derive(Clone, Copy, Debug, PartialEq, Eq, Structural, Ord)]
pub struct VirtAddr(pub usize);

impl View for VirtAddr {
    type V = int;

    open spec fn view(&self) -> int {
        self.0 as int
    }
}

impl VirtAddr {
    pub fn new(value: usize) -> (va: Self)
        ensures
            va@ == value,
    {
        VirtAddr(value)
    }

    pub fn addr(&self) -> (value: usize)
        ensures
            value == self@,
    {
        self.0
    }
}

/// Virtual addresses are ordered as their integers are.
impl PartialOrd for VirtAddr {
    fn partial_cmp(&self, other: &Self) -> (r: Option<Ordering>) {
        if self.0 < other.0 {
            Some(Ordering::Less)
        } else if self.0 > other.0 {
            Some(Ordering::Greater)
        } else {
            Some(Ordering::Equal)
        }
    }
}

impl vstd::std_specs::cmp::PartialOrdSpecImpl for VirtAddr {
    open spec fn obeys_partial_cmp_spec() -> bool {
        true
    }

    open spec fn partial_cmp_spec(&self, other: &Self) -> Option<Ordering> {
        if self.0 < other.0 {
            Some(Ordering::Less)
        } else if self.0 > other.0 {
            Some(Ordering::Greater)
        } else {
            Some(Ordering::Equal)
        }
    }
}

/// `va + offset` is the address `offset` bytes further on. The sum has to
/// be an address: `add_req` leaves out the offsets that lead past the
/// largest one.
impl core::ops::Add<usize> for VirtAddr {
    type Output = VirtAddr;

    fn add(self, offset: usize) -> (va: VirtAddr) {
        VirtAddr(self.0 + offset)
    }
}

impl vstd::std_specs::ops::AddSpecImpl<usize> for VirtAddr {
    open spec fn obeys_add_spec() -> bool {
        true
    }

    open spec fn add_req(self, offset: usize) -> bool {
        self@ + offset <= usize::MAX
    }

    open spec fn add_spec(self, offset: usize) -> VirtAddr {
        VirtAddr((self@ + offset) as usize)
    }
}

/// `va - offset` is the address `offset` bytes back. `sub_req` leaves out
/// the offsets that lead below address zero.
impl core::ops::Sub<usize> for VirtAddr {
    type Output = VirtAddr;

    fn sub(self, offset: usize) -> (va: VirtAddr) {
        VirtAddr(self.0 - offset)
    }
}

impl vstd::std_specs::ops::SubSpecImpl<usize> for VirtAddr {
    open spec fn obeys_sub_spec() -> bool {
        true
    }

    open spec fn sub_req(self, offset: usize) -> bool {
        offset <= self@
    }

    open spec fn sub_spec(self, offset: usize) -> VirtAddr {
        VirtAddr((self@ - offset) as usize)
    }
}

/// Adding an offset to a virtual address and subtracting it again gives
/// the address back, wherever the sum is an address.
pub proof fn law_virt_add_sub(va: VirtAddr, offset: usize)
    requires
        va.add_req(offset),
    ensures
        va.add_spec(offset).sub_req(offset),
        va.add_spec(offset).sub_spec(offset) == va,
{
}

/// A half-open range `[start, end)` of virtual addresses. Its view is the
/// interval between the two.
pub struct VirtRange(pub Range<VirtAddr>);

impl View for VirtRange {
    type V = Interval;

    open spec fn view(&self) -> Interval {
        Interval { start: self.0.start@, end: self.0.end@ }
    }
}

impl VirtRange {
    /// The range of `len` bytes from `start` on.
    pub fn with_len(start: VirtAddr, len: usize) -> (range: Self)
        requires
            start@ + len <= usize::MAX,
        ensures
            range@ == Interval::with_len(start@, len as nat),
            range@.wf(),
    {
        Self(start..start + len)
    }

    /// The address `offset` bytes past the start, where the range contains
    /// it: for the offsets below the range's length, and no others.
    pub fn offset_addr(&self, offset: usize) -> (found: Option<VirtAddr>)
        ensures
            match found {
                Some(addr) => self@.offset(offset as nat) == Some(addr@),
                None => self@.offset(offset as nat) is None,
            },
    {
        match self.0.start.0.checked_add(offset) {
            Some(addr) if addr < self.0.end.0 => Some(VirtAddr(addr)),
            _ => None,
        }
    }

    pub fn start(&self) -> (start: VirtAddr)
        ensures
            start@ == self@.start,
    {
        self.0.start
    }

    pub fn end(&self) -> (end: VirtAddr)
        ensures
            end@ == self@.end,
    {
        self.0.end
    }

    /// The range that a register block describes: it starts at the block's
    /// address and is as long as the block, empty where the block has no
    /// length.
    pub fn from(r: &RegBlock) -> (range: Self)
        requires
            r@.end <= usize::MAX,
        ensures
            range@ == r@,
            range@.wf(),
    {
        let start = VirtAddr(r.addr as usize);
        let end = start + r.len.unwrap_or(0) as usize;
        VirtRange(start..end)
    }
}

/// A location in physical memory, 64 bits wide whatever the width of a
/// pointer. Its view is the address as an integer.
#[derive(Clone, Copy, Debug, PartialEq, Eq, Structural, Ord)]
pub struct PhysAddr(pub u64);

impl View for PhysAddr {
    type V = int;

    open spec fn view(&self) -> int {
        self.0 as int
    }
}

impl PhysAddr {
    pub fn new(value: u64) -> (pa: Self)
        ensures
            pa@ == value,
    {
        PhysAddr(value)
    }

    pub fn addr(&self) -> (value: u64)
        ensures
            value == self@,
    {
        self.0
    }

    /// The first multiple of `step` at or above the address. `step` is a
    /// power of two, and that multiple has to be an address.
    pub fn round_up(&self, step: u64) -> (pa: PhysAddr)
        requires
            is_pow2(step as int),
            self@ + step - 1 <= u64::MAX,
        ensures
            pa@ == round_up(self@, step as int),
    {
        proof {
            lemma_mask_rounds_up(self.0, step);
        }
        PhysAddr((self.0 + (step - 1)) & !(step - 1))
    }

    /// The last multiple of `step` at or below the address. `step` is a
    /// power of two.
    pub fn round_down(&self, step: u64) -> (pa: PhysAddr)
        requires
            is_pow2(step as int),
        ensures
            pa@ == round_down(self@, step as int),
    {
        proof {
            lemma_mask_rounds_down(self.0, step);
        }
        PhysAddr(self.0 & !(step - 1))
    }

    /// Whether `n` divides the address. Zero divides only address zero.
    pub fn is_multiple_of(&self, n: u64) -> (divides: bool)
        ensures
            divides == (if n == 0 {
                self@ == 0
            } else {
                self@ % (n as int) == 0
            }),
    {
        self.0.is_multiple_of(n)
    }

    /// What `steps_between` returns: the distance from `self` to `end` as
    /// both bounds where `end` is not below `self` and the distance fits in
    /// a `usize`; else zero as the lower bound and no upper bound.
    pub open spec fn steps_between_spec(self, end: PhysAddr) -> (usize, Option<usize>) {
        if self@ <= end@ && end@ - self@ <= usize::MAX {
            ((end@ - self@) as usize, Some((end@ - self@) as usize))
        } else {
            (0, None)
        }
    }

    /// What `forward_checked` returns: the address `count` bytes further
    /// on, if there is one.
    pub open spec fn forward_spec(self, count: usize) -> Option<PhysAddr> {
        if self@ + count <= u64::MAX {
            Some(PhysAddr((self@ + count) as u64))
        } else {
            None
        }
    }

    /// What `backward_checked` returns: the address `count` bytes back, if
    /// there is one.
    pub open spec fn backward_spec(self, count: usize) -> Option<PhysAddr> {
        if self@ - count >= 0 {
            Some(PhysAddr((self@ - count) as u64))
        } else {
            None
        }
    }

    /// How many single-byte steps lead from `start` to `end`, as a lower
    /// and an upper bound: the exact number twice where it can be given,
    /// else zero and no upper bound.
    pub fn steps_between(start: &Self, end: &Self) -> (bounds: (usize, Option<usize>))
        ensures
            bounds == start.steps_between_spec(*end),
    {
        if start.0 <= end.0 {
            let diff: u64 = end.0 - start.0;
            if diff <= usize::MAX as u64 {
                return (diff as usize, Some(diff as usize));
            }
        }
        (0, None)
    }

    /// The address `count` bytes past `start`, or `None` where that is
    /// past the largest address: it never wraps around.
    pub fn forward_checked(start: Self, count: usize) -> (reached: Option<Self>)
        ensures
            reached == start.forward_spec(count),
    {
        match start.0.checked_add(count as u64) {
            Some(addr) => Some(PhysAddr(addr)),
            None => None,
        }
    }

    /// The address `count` bytes before `start`, or `None` where that is
    /// below address zero: it never wraps around.
    pub fn backward_checked(start: Self, count: usize) -> (reached: Option<Self>)
        ensures
            reached == start.backward_spec(count),
    {
        match start.0.checked_sub(count as u64) {
            Some(addr) => Some(PhysAddr(addr)),
            None => None,
        }
    }
}

/// Physical addresses are ordered as their integers are.
impl PartialOrd for PhysAddr {
    fn partial_cmp(&self, other: &Self) -> (r: Option<Ordering>) {
        if self.0 < other.0 {
            Some(Ordering::Less)
        } else if self.0 > other.0 {
            Some(Ordering::Greater)
        } else {
            Some(Ordering::Equal)
        }
    }
}

impl vstd::std_specs::cmp::PartialOrdSpecImpl for PhysAddr {
    open spec fn obeys_partial_cmp_spec() -> bool {
        true
    }

    open spec fn partial_cmp_spec(&self, other: &Self) -> Option<Ordering> {
        if self.0 < other.0 {
            Some(Ordering::Less)
        } else if self.0 > other.0 {
            Some(Ordering::Greater)
        } else {
            Some(Ordering::Equal)
        }
    }
}

/// `pa + offset` is the address `offset` bytes further on. The sum has to
/// be an address: `add_req` leaves out the offsets that lead past the
/// largest one.
impl core::ops::Add<u64> for PhysAddr {
    type Output = PhysAddr;

    fn add(self, offset: u64) -> (pa: PhysAddr) {
        PhysAddr(self.0 + offset)
    }
}

impl vstd::std_specs::ops::AddSpecImpl<u64> for PhysAddr {
    open spec fn obeys_add_spec() -> bool {
        true
    }

    open spec fn add_req(self, offset: u64) -> bool {
        self@ + offset <= u64::MAX
    }

    open spec fn add_spec(self, offset: u64) -> PhysAddr {
        PhysAddr((self@ + offset) as u64)
    }
}

/// Adding an offset to a physical address and going back by it gives the
/// address again, wherever the sum is an address.
pub proof fn law_phys_add_back(pa: PhysAddr, offset: u64)
    requires
        pa.add_req(offset),
    ensures
        pa.add_spec(offset)@ - offset == pa@,
        offset <= usize::MAX ==> pa.add_spec(offset).backward_spec(offset as usize) == Some(pa),
{
}

/// A step forward and the same step backward undo each other, wherever
/// the first of the two does not leave the addresses.
pub proof fn law_forward_backward(pa: PhysAddr, count: usize)
    ensures
        pa.forward_spec(count) matches Some(next) ==> next.backward_spec(count) == Some(pa),
        pa.backward_spec(count) matches Some(prev) ==> prev.forward_spec(count) == Some(pa),
{
}

/// `count` steps lie between two addresses exactly when `count` steps
/// forward from the first reach the second.
pub proof fn law_steps_between_forward(start: PhysAddr, end: PhysAddr, count: usize)
    ensures
        start.steps_between_spec(end) == (count, Some(count)) <==> start.forward_spec(count)
            == Some(end),
{
}

/// A half-open range `[start, end)` of physical addresses. Its view is the
/// interval between the two.
pub struct PhysRange(pub Range<PhysAddr>);

impl View for PhysRange {
    type V = Interval;

    open spec fn view(&self) -> Interval {
        Interval { start: self.0.start@, end: self.0.end@ }
    }
}

impl PhysRange {
    pub fn new(start: PhysAddr, end: PhysAddr) -> (range: Self)
        requires
            start@ <= end@,
        ensures
            range@ == (Interval { start: start@, end: end@ }),
            range@.wf(),
    {
        Self(start..end)
    }

    pub fn with_end(start: u64, end: u64) -> (range: Self)
        requires
            start <= end,
        ensures
            range@ == (Interval { start: start as int, end: end as int }),
            range@.wf(),
    {
        Self(PhysAddr(start)..PhysAddr(end))
    }

    /// The range of `len` bytes from `start` on.
    pub fn with_len(start: u64, len: usize) -> (range: Self)
        requires
            start + len <= u64::MAX,
        ensures
            range@ == Interval::with_len(start as int, len as nat),
            range@.wf(),
    {
        Self(PhysAddr(start)..PhysAddr(start + len as u64))
    }

    /// The range of `len` bytes from `start` on.
    pub fn with_pa_len(start: PhysAddr, len: usize) -> (range: Self)
        requires
            start@ + len <= u64::MAX,
        ensures
            range@ == Interval::with_len(start@, len as nat),
            range@.wf(),
    {
        Self(start..PhysAddr(start.0 + len as u64))
    }

    /// The address `offset` bytes past the start, where the range contains
    /// it: for the offsets below the range's length, and no others.
    pub fn offset_addr(&self, offset: u64) -> (found: Option<PhysAddr>)
        ensures
            match found {
                Some(addr) => self@.offset(offset as nat) == Some(addr@),
                None => self@.offset(offset as nat) is None,
            },
    {
        match self.0.start.0.checked_add(offset) {
            Some(addr) if addr < self.0.end.0 => Some(PhysAddr(addr)),
            _ => None,
        }
    }

    pub fn start(&self) -> (start: PhysAddr)
        ensures
            start@ == self@.start,
    {
        self.0.start
    }

    pub fn end(&self) -> (end: PhysAddr)
        ensures
            end@ == self@.end,
    {
        self.0.end
    }

    /// Number of bytes in the range.
    pub fn size(&self) -> (size: usize)
        requires
            self@.wf(),
            self@.len() <= usize::MAX,
        ensures
            size == self@.len(),
    {
        (self.0.end.addr() - self.0.start.addr()) as usize
    }

    /// The start of every unit of `step_size` bytes that the range
    /// touches, in rising order: the start is rounded down and the end is
    /// rounded up to `step_size`, and the addresses between the two are
    /// walked by `step_size`. The walk is lazy, and a second call walks the
    /// same addresses again.
    pub fn step_by_rounded(&self, step_size: usize) -> (steps: PhysSteps)
        requires
            is_pow2(step_size as int),
            self@.end + step_size - 1 <= u64::MAX,
        ensures
            steps@ == self@.rounded(step_size as int).steps(step_size as int),
    {
        proof {
            lemma_pow2_positive(step_size as int);
        }
        let startpa = self.start().round_down(step_size as u64);
        let endpa = self.end().round_up(step_size as u64);
        PhysSteps::new(startpa, endpa, step_size)
    }

    /// The smallest range that covers both `self` and `other`. The two
    /// need not overlap or touch: what lies between them is covered too.
    pub fn add(&self, other: &PhysRange) -> (range: Self)
        ensures
            range@ == self@.hull(other@),
    {
        let start = if self.0.start.0 <= other.0.start.0 {
            self.0.start
        } else {
            other.0.start
        };
        let end = if self.0.end.0 >= other.0.end.0 {
            self.0.end
        } else {
            other.0.end
        };
        Self(start..end)
    }

    /// The range that a register block describes: it starts at the block's
    /// address and is as long as the block, empty where the block has no
    /// length.
    pub fn from(r: &RegBlock) -> (range: Self)
        requires
            r@.end <= u64::MAX,
        ensures
            range@ == r@,
            range@.wf(),
    {
        let start = PhysAddr(r.addr);
        let end = start + r.len.unwrap_or(0);
        PhysRange(start..end)
    }
}

/// A walk from one physical address towards another in strides of a fixed
/// size. Its view is the addresses that are still to come, in the order in
/// which `next` hands them out.
pub struct PhysSteps {
    cursor: PhysAddr,
    end: PhysAddr,
    step: usize,
}

impl View for PhysSteps {
    type V = Seq<int>;

    closed spec fn view(&self) -> Seq<int> {
        (Interval { start: self.cursor@, end: self.end@ }).steps(self.step as int)
    }
}

impl PhysSteps {
    #[verifier::type_invariant]
    spec fn stride_is_positive(&self) -> bool {
        self.step > 0
    }

    /// The walk over `start`, `start + step`, `start + 2 * step`, ... as
    /// far as these are below `end`.
    fn new(start: PhysAddr, end: PhysAddr, step: usize) -> (steps: Self)
        requires
            step > 0,
        ensures
            steps@ == (Interval { start: start@, end: end@ }).steps(step as int),
    {
        PhysSteps { cursor: start, end, step }
    }

    /// The next address of the walk, or `None` when the walk has reached
    /// its end; from then on it stays `None`.
    pub fn next(&mut self) -> (addr: Option<PhysAddr>)
        ensures
            match addr {
                Some(pa) => old(self)@.len() > 0 && pa@ == old(self)@[0] && final(self)@ == old(
                    self,
                )@.drop_first(),
                None => old(self)@.len() == 0 && final(self)@ == old(self)@,
            },
    {
        proof {
            use_type_invariant(&*self);
        }
        let ghost before = Interval { start: self.cursor@, end: self.end@ };
        if self.cursor.0 < self.end.0 {
            let addr = self.cursor;
            self.cursor = match PhysAddr::forward_checked(addr, self.step) {
                Some(next) => next,
                None => self.end,
            };
            proof {
                let rest = Interval { start: before.start + self.step, end: before.end };
                lemma_steps_unfold(before, self.step as int);
                if rest.start >= rest.end {
                    lemma_steps_empty(rest, self.step as int);
                    lemma_steps_empty(
                        Interval { start: self.cursor@, end: self.end@ },
                        self.step as int,
                    );
                }
                assert(before.steps(self.step as int).drop_first() =~= rest.steps(
                    self.step as int,
                ));
            }
            Some(addr)
        } else {
            proof {
                lemma_steps_empty(before, self.step as int);
            }
            None
        }
    }

    /// All the addresses that are still to come, in order.
    pub fn collect(self) -> (addrs: Vec<PhysAddr>)
        ensures
            addrs@.len() == self@.len(),
            forall|i: int| 0 <= i < addrs@.len() ==> (#[trigger] addrs@[i])@ == self@[i],
    {
        let ghost all = self@;
        let mut steps = self;
        let mut addrs: Vec<PhysAddr> = Vec::new();
        loop
            invariant
                all == self@,
                addrs@.len() + steps@.len() == all.len(),
                forall|i: int| 0 <= i < addrs@.len() ==> addrs@[i]@ == all[i],
                forall|i: int| 0 <= i < steps@.len() ==> steps@[i] == all[addrs@.len() + i],
            decreases steps@.len(),
        {
            match steps.next() {
                Some(pa) => {
                    addrs.push(pa);
                },
                None => {
                    return addrs;
                },
            }
        }
    }
}

} // verus!
