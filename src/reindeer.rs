//! Reindeer strength totals.

use vstd::prelude::*;

verus! {

/// A reindeer and its strength.
pub struct Reindeer {
    pub name: String,
    pub strength: i32,
}

/// Sum of the strengths of a list of reindeer.
pub open spec fn strength_sum(rs: Seq<Reindeer>) -> int
    decreases rs.len(),
{
    if rs.len() == 0 {
        0
    } else {
        strength_sum(rs.drop_last()) + rs.last().strength
    }
}

/// Every running total of the list fits in an `i32`.
pub open spec fn sums_fit(rs: Seq<Reindeer>) -> bool {
    forall|k: int|
        0 <= k <= rs.len() ==> i32::MIN <= #[trigger] strength_sum(rs.take(k)) <= i32::MAX
}

/// The total strength of all reindeer, summed in order.
pub fn total_strength(reindeers: &Vec<Reindeer>) -> (r: i32)
    requires
        sums_fit(reindeers@),
    ensures
        r == strength_sum(reindeers@),
{
    let ghost rs = reindeers@;
    let mut total: i32 = 0;
    let mut i: usize = 0;
    assert(rs.take(0) =~= Seq::<Reindeer>::empty());
    while i < reindeers.len()
        invariant
            rs == reindeers@,
            sums_fit(rs),
            i <= rs.len(),
            total == strength_sum(rs.take(i as int)),
        decreases rs.len() - i,
    {
        assert(rs.take(i + 1).drop_last() =~= rs.take(i as int));
        assert(rs.take(i + 1).last() == rs[i as int]);
        let ghost next = strength_sum(rs.take(i + 1));
        assert(i32::MIN <= next <= i32::MAX);
        total = total + reindeers[i].strength;
        i = i + 1;
    }
    assert(rs.take(rs.len() as int) =~= rs);
    total
}

} // verus!
