//! The mathematical model of an address range: a half-open interval of
//! integers, with the operations that the range types are specified by.

use crate::align::{law_rounding, round_down, round_up};
use vstd::arithmetic::div_mod::{
    lemma_div_plus_one, lemma_fundamental_div_mod, lemma_fundamental_div_mod_converse,
    lemma_mod_multiples_basic,
};
use vstd::arithmetic::power2::is_pow2;
use vstd::prelude::*;

verus! {

/// The half-open interval `[start, end)`.
pub struct Interval {
    pub start: int,
    pub end: int,
}

impl Interval {
    /// The interval is not inverted.
    pub open spec fn wf(self) -> bool {
        self.start <= self.end
    }

    /// Number of addresses in the interval.
    pub open spec fn len(self) -> int {
        self.end - self.start
    }

    /// The start is included, the end is not.
    pub open spec fn contains(self, addr: int) -> bool {
        self.start <= addr < self.end
    }

    /// The interval of `len` addresses from `start` on.
    pub open spec fn with_len(start: int, len: nat) -> Interval {
        Interval { start, end: start + len }
    }

    /// The address `offset` past the start, if the interval contains it.
    pub open spec fn offset(self, offset: nat) -> Option<int> {
        if self.contains(self.start + offset) {
            Some(self.start + offset)
        } else {
            None
        }
    }

    /// Every address of `other` lies between the bounds of `self`.
    pub open spec fn covers(self, other: Interval) -> bool {
        self.start <= other.start && other.end <= self.end
    }

    /// The smallest interval that covers both `self` and `other`, whether
    /// or not they touch.
    pub open spec fn hull(self, other: Interval) -> Interval {
        Interval {
            start: if self.start <= other.start { self.start } else { other.start },
            end: if self.end >= other.end { self.end } else { other.end },
        }
    }

    /// The interval widened to multiples of `step` at both ends.
    pub open spec fn rounded(self, step: int) -> Interval {
        Interval { start: round_down(self.start, step), end: round_up(self.end, step) }
    }

    /// Number of strides of `step` that fit between the start and the end,
    /// the last one possibly cut short by the end.
    pub open spec fn step_count(self, step: int) -> nat {
        if self.start < self.end && step > 0 {
            ((self.end - self.start + step - 1) / step) as nat
        } else {
            0
        }
    }

    /// The addresses `start`, `start + step`, `start + 2 * step`, ... that
    /// lie below the end.
    pub open spec fn steps(self, step: int) -> Seq<int> {
        Seq::new(self.step_count(step), |k: int| self.start + k * step)
    }
}

/// An interval built from a start and a positive length has that length,
/// and its offsets are valid from zero up to, not including, the length.
pub proof fn law_with_len_offsets(start: int, len: nat)
    requires
        len > 0,
    ensures
        Interval::with_len(start, len).wf(),
        Interval::with_len(start, len).len() == len,
        Interval::with_len(start, len).offset(0) == Some(start),
        Interval::with_len(start, len).offset((len - 1) as nat) == Some(start + len - 1),
        Interval::with_len(start, len).offset(len) == None::<int>,
{
}

/// An offset is valid exactly when it is less than the length; an offset
/// equal to the length or beyond it is not.
pub proof fn law_offset_below_len(r: Interval, offset: nat)
    ensures
        r.offset(offset) is Some <==> offset < r.len(),
        r.offset(offset) is Some ==> r.offset(offset) == Some(r.start + offset),
{
}

/// The union of two intervals covers both, does not depend on their order,
/// and leaves an interval that is united with itself unchanged.
pub proof fn law_hull(a: Interval, b: Interval)
    ensures
        a.hull(b).covers(a),
        a.hull(b).covers(b),
        a.hull(b) == b.hull(a),
        a.hull(a) == a,
        a.wf() || b.wf() ==> a.hull(b).wf(),
{
}

/// The union is the smallest interval that covers both.
pub proof fn law_hull_least(a: Interval, b: Interval, c: Interval)
    requires
        c.covers(a),
        c.covers(b),
    ensures
        c.covers(a.hull(b)),
{
}

/// An interval with nothing in it has no steps.
pub proof fn lemma_steps_empty(r: Interval, step: int)
    requires
        r.start >= r.end,
    ensures
        r.steps(step) == Seq::<int>::empty(),
{
    assert(r.steps(step) =~= Seq::<int>::empty());
}

/// The steps of an interval that is not empty are its start, followed by
/// the steps of what is left one stride further on.
pub proof fn lemma_steps_unfold(r: Interval, step: int)
    requires
        r.start < r.end,
        step > 0,
    ensures
        r.steps(step) == seq![r.start] + (Interval { start: r.start + step, end: r.end }).steps(
            step,
        ),
{
    let rest = Interval { start: r.start + step, end: r.end };
    let span = r.end - r.start + step - 1;
    if rest.start < rest.end {
        lemma_div_plus_one(span - step, step);
    } else {
        lemma_fundamental_div_mod_converse(span, step, 1, span - step);
    }
    assert forall|k: int| 0 <= k < rest.step_count(step) implies #[trigger] rest.steps(step)[k]
        == r.steps(step)[k + 1] by {
        assert((k + 1) * step == k * step + step) by (nonlinear_arith);
    }
    assert(r.steps(step)[0] == r.start);
    assert(r.steps(step) =~= seq![r.start] + rest.steps(step));
}

/// Between two multiples of `step` lie as many strides as their quotients
/// differ by.
pub proof fn lemma_step_count_aligned(r: Interval, step: int)
    requires
        step > 0,
        r.wf(),
        r.start % step == 0,
        r.end % step == 0,
    ensures
        r.step_count(step) == r.end / step - r.start / step,
        r.step_count(step) * step == r.len(),
{
    let lo = r.start / step;
    let hi = r.end / step;
    lemma_fundamental_div_mod(r.start, step);
    lemma_fundamental_div_mod(r.end, step);
    assert((hi - lo) * step == r.end - r.start) by (nonlinear_arith)
        requires
            r.start == step * lo,
            r.end == step * hi,
    ;
    if r.start < r.end {
        lemma_fundamental_div_mod_converse(r.end - r.start + step - 1, step, hi - lo, step - 1);
    }
}

/// Stepping over an interval that was widened to multiples of a power of
/// two yields every multiple of the step from the widened start up to, not
/// including, the widened end, and nothing else.
pub proof fn law_rounded_steps_are_the_multiples(r: Interval, step: int)
    requires
        r.wf(),
        is_pow2(step),
    ensures
        forall|addr: int|
            #![trigger r.rounded(step).steps(step).contains(addr)]
            #![trigger r.rounded(step).contains(addr)]
            r.rounded(step).steps(step).contains(addr) <==> (r.rounded(step).contains(addr) && addr
                % step == 0),
{
    let w = r.rounded(step);
    law_rounding(r.start, step);
    law_rounding(r.end, step);
    lemma_step_count_aligned(w, step);
    let lo = w.start / step;
    let hi = w.end / step;
    lemma_fundamental_div_mod(w.start, step);
    lemma_fundamental_div_mod(w.end, step);
    assert forall|addr: int| w.steps(step).contains(addr) implies w.contains(addr) && addr % step
        == 0 by {
        let k = choose|k: int| 0 <= k < w.steps(step).len() && w.steps(step)[k] == addr;
        assert(addr == (lo + k) * step && w.start <= addr < w.end) by (nonlinear_arith)
            requires
                addr == w.start + k * step,
                w.start == step * lo,
                w.end == step * hi,
                0 <= k < hi - lo,
                step > 0,
        ;
        lemma_mod_multiples_basic(lo + k, step);
    }
    assert forall|addr: int| w.contains(addr) && addr % step == 0 implies w.steps(step).contains(
        addr,
    ) by {
        lemma_fundamental_div_mod(addr, step);
        let k = addr / step - lo;
        assert(0 <= k < hi - lo && addr == w.start + k * step) by (nonlinear_arith)
            requires
                addr == step * (addr / step),
                k == addr / step - lo,
                w.start == step * lo,
                w.end == step * hi,
                w.start <= addr < w.end,
                step > 0,
        ;
        assert(w.steps(step)[k] == addr);
    }
}

/// The strides that start at the steps of the widened interval leave no
/// address of the interval itself out: each lies in the stride that starts
/// at the multiple of the step below it.
pub proof fn law_rounded_steps_cover(r: Interval, step: int, addr: int)
    requires
        is_pow2(step),
        r.contains(addr),
    ensures
        r.rounded(step).steps(step).contains(round_down(addr, step)),
        round_down(addr, step) <= addr < round_down(addr, step) + step,
{
    let w = r.rounded(step);
    let base = round_down(addr, step);
    law_rounding(r.start, step);
    law_rounding(r.end, step);
    law_rounding(addr, step);
    law_rounded_steps_are_the_multiples(r, step);
    lemma_fundamental_div_mod(base, step);
    lemma_fundamental_div_mod(w.start, step);
    assert(w.start <= base) by (nonlinear_arith)
        requires
            base == step * (base / step),
            w.start == step * (w.start / step),
            w.start < base + step,
            step > 0,
    ;
}

} // verus!
