//! The arithmetic that turns internal progress into absolute progress.
use vstd::arithmetic::div_mod::{
    lemma_div_multiples_vanish, lemma_fundamental_div_mod, lemma_fundamental_div_mod_converse,
    lemma_mod_bound, lemma_mod_multiples_basic, lemma_mod_pos_bound,
};
use vstd::prelude::*;

verus! {

/// Internal progress scaled by the allocation, with the carried remainder
/// added: the mixed unit that is divided by the internal maximum. The
/// remainder is already in this unit, so it is added after the scaling.
pub open spec fn scaled(progress: int, carried: int, allocation: int) -> int {
    progress * allocation + carried
}

/// The absolute delta that one report of `progress` yields.
pub open spec fn delta_of(progress: int, carried: int, allocation: int, internal_max: int) -> int {
    scaled(progress, carried, allocation) / internal_max
}

/// The remainder that one report of `progress` leaves to carry forward.
pub open spec fn carry_of(progress: int, carried: int, allocation: int, internal_max: int) -> int {
    scaled(progress, carried, allocation) % internal_max
}

/// One report can be converted in `u64` arithmetic: the internal maximum is
/// not zero and the scaled value fits.
pub open spec fn converts(progress: u64, carried: u64, allocation: u64, internal_max: u64) -> bool {
    &&& internal_max > 0
    &&& scaled(progress as int, carried as int, allocation as int) <= u64::MAX
}

/// Converts one report of internal progress into an absolute delta and the
/// remainder to carry forward. Multiplies before it divides, so that the
/// remainder keeps what the division truncates.
pub fn convert(progress: u64, carried: u64, allocation: u64, internal_max: u64) -> (r: (u64, u64))
    requires
        converts(progress, carried, allocation, internal_max),
    ensures
        r.0 == delta_of(progress as int, carried as int, allocation as int, internal_max as int),
        r.1 == carry_of(progress as int, carried as int, allocation as int, internal_max as int),
{
    proof {
        assert(0 <= progress * allocation) by (nonlinear_arith);
    }
    let product: u64 = progress * allocation;
    let intermediate: u64 = product + carried;
    (intermediate / internal_max, intermediate % internal_max)
}

/// The sum of a sequence of reports or deltas.
pub open spec fn sum_of(values: Seq<u64>) -> int
    decreases values.len(),
{
    if values.len() == 0 {
        0
    } else {
        sum_of(values.drop_last()) + values.last()
    }
}

/// The remainder a node carries after it reports each of `reports` in turn,
/// starting with nothing carried.
pub open spec fn carry_after(reports: Seq<u64>, allocation: int, internal_max: int) -> int
    decreases reports.len(),
{
    if reports.len() == 0 {
        0
    } else {
        let carried = carry_after(reports.drop_last(), allocation, internal_max);
        carry_of(reports.last() as int, carried, allocation, internal_max)
    }
}

/// The sum of the deltas a node pushes when it reports each of `reports` in
/// turn, starting with nothing carried.
pub open spec fn pushed_after(reports: Seq<u64>, allocation: int, internal_max: int) -> int
    decreases reports.len(),
{
    if reports.len() == 0 {
        0
    } else {
        let carried = carry_after(reports.drop_last(), allocation, internal_max);
        pushed_after(reports.drop_last(), allocation, internal_max)
            + delta_of(reports.last() as int, carried, allocation, internal_max)
    }
}

/// Remainder conservation: reporting progress in many small steps pushes
/// exactly what one report of the cumulative progress would, namely
/// `allocation * total / internal_max` rounded down, and carries the rest.
/// The deltas, in units of the internal maximum, plus the final remainder
/// equal the allocation times the reported progress, so the rounding error
/// of the whole run stays below one absolute unit.
pub proof fn lemma_remainder_conservation(reports: Seq<u64>, allocation: int, internal_max: int)
    requires
        internal_max > 0,
    ensures
        pushed_after(reports, allocation, internal_max) * internal_max
            + carry_after(reports, allocation, internal_max) == allocation * sum_of(reports),
        0 <= carry_after(reports, allocation, internal_max) < internal_max,
        pushed_after(reports, allocation, internal_max) == allocation * sum_of(reports) / internal_max,
        carry_after(reports, allocation, internal_max) == allocation * sum_of(reports) % internal_max,
    decreases reports.len(),
{
    if reports.len() > 0 {
        let before = reports.drop_last();
        lemma_remainder_conservation(before, allocation, internal_max);
        let c = carry_after(before, allocation, internal_max);
        let pb = pushed_after(before, allocation, internal_max);
        let rb = sum_of(before);
        let last = reports.last() as int;
        let x = scaled(last, c, allocation);
        lemma_fundamental_div_mod(x, internal_max);
        lemma_mod_bound(x, internal_max);
        assert(pushed_after(reports, allocation, internal_max) == pb + x / internal_max);
        assert(carry_after(reports, allocation, internal_max) == x % internal_max);
        assert(sum_of(reports) == rb + last);
        assert((pb + x / internal_max) * internal_max + x % internal_max
            == allocation * (rb + last)) by (nonlinear_arith)
            requires
                pb * internal_max + c == allocation * rb,
                x == internal_max * (x / internal_max) + x % internal_max,
                x == last * allocation + c,
        ;
    }
    lemma_fundamental_div_mod_converse(
        allocation * sum_of(reports),
        internal_max,
        pushed_after(reports, allocation, internal_max),
        carry_after(reports, allocation, internal_max),
    );
}

/// A later report pushes the difference of the cumulative values: with
/// `reports` made before, reporting `progress` pushes
/// `allocation * total / internal_max` after it less the same before it, and
/// carries `allocation * total % internal_max`, where `total` is everything
/// reported so far.
pub proof fn lemma_delta_is_cumulative_difference(
    reports: Seq<u64>,
    progress: u64,
    allocation: int,
    internal_max: int,
)
    requires
        internal_max > 0,
    ensures
        delta_of(progress as int, carry_after(reports, allocation, internal_max), allocation, internal_max)
            == allocation * sum_of(reports.push(progress)) / internal_max
                - allocation * sum_of(reports) / internal_max,
        carry_of(progress as int, carry_after(reports, allocation, internal_max), allocation, internal_max)
            == allocation * sum_of(reports.push(progress)) % internal_max,
{
    let after = reports.push(progress);
    assert(after.drop_last() =~= reports);
    lemma_remainder_conservation(reports, allocation, internal_max);
    lemma_remainder_conservation(after, allocation, internal_max);
}

/// A report of no progress pushes nothing and keeps the carried remainder,
/// which always lies below the internal maximum.
pub proof fn lemma_zero_report(carried: int, allocation: int, internal_max: int)
    requires
        0 <= carried < internal_max,
    ensures
        delta_of(0, carried, allocation, internal_max) == 0,
        carry_of(0, carried, allocation, internal_max) == carried,
{
    assert(scaled(0, carried, allocation) == carried);
    lemma_fundamental_div_mod_converse(carried, internal_max, 0, carried);
}

/// Subdivision: a child that gets `allocation / fraction` and reports its
/// whole internal maximum from a fresh state pushes exactly its allocation
/// and carries nothing; `fraction` such children together push at most
/// `allocation`, and less than `fraction` short of it.
pub proof fn lemma_subdivision(allocation: int, fraction: int, internal_max: int)
    requires
        0 <= allocation,
        fraction > 0,
        internal_max > 0,
    ensures
        delta_of(internal_max, 0, allocation / fraction, internal_max) == allocation / fraction,
        carry_of(internal_max, 0, allocation / fraction, internal_max) == 0,
        fraction * (allocation / fraction) <= allocation,
        allocation < fraction * (allocation / fraction) + fraction,
{
    let share = allocation / fraction;
    lemma_div_multiples_vanish(share, internal_max);
    lemma_mod_multiples_basic(share, internal_max);
    assert(scaled(internal_max, 0, share) == internal_max * share);
    assert(internal_max * share == share * internal_max) by (nonlinear_arith);
    lemma_fundamental_div_mod(allocation, fraction);
    lemma_mod_pos_bound(allocation, fraction);
}

} // verus!
