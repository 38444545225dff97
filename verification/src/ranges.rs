//! Address ranges as the command line gives them: a flat list of values,
//! taken in pairs of start and end.

use vstd::prelude::*;

verus! {

/// The pairs of a flat list of values: the values at `2k` and `2k + 1` form
/// pair `k`; an odd value at the end is left out.
pub open spec fn value_pairs(values: Seq<u64>) -> Seq<(u64, u64)> {
    Seq::new(values.len() / 2, |k: int| (values[2 * k], values[2 * k + 1]))
}

/// The address ranges of a list of values, in pairs of start and end.
pub fn range_args_to_ranges(values: &[u64]) -> (r: Vec<(u64, u64)>)
    ensures
        r@ == value_pairs(values@),
{
    let mut addr_ranges: Vec<(u64, u64)> = Vec::new();
    let mut idx: usize = 1;
    while idx < values.len()
        invariant
            1 <= idx,
            idx % 2 == 1,
            idx <= values@.len() + 1,
            addr_ranges@.len() == (idx - 1) / 2,
            forall|k: int| 0 <= k < addr_ranges@.len() ==> #[trigger] addr_ranges@[k] == (values@[2 * k], values@[2 * k + 1]),
        decreases values@.len() + 1 - idx,
    {
        addr_ranges.push((values[idx - 1], values[idx]));
        idx += 2;
    }
    assert(addr_ranges@.len() == values@.len() / 2);
    assert(addr_ranges@ =~= value_pairs(values@));
    addr_ranges
}

} // verus!
