//! Counts of what a bounded queue had to let go.
use vstd::prelude::*;

verus! {

/// A count after one more; it wraps like any counter that is read by its increments.
pub open spec fn one_more(count: u64) -> u64 {
    if count == u64::MAX {
        0
    } else {
        (count + 1) as u64
    }
}

pub fn count_one(count: u64) -> (after: u64)
    ensures
        after == one_more(count),
{
    if count == u64::MAX {
        0
    } else {
        count + 1
    }
}

} // verus!
