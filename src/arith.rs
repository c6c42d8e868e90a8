use vstd::prelude::*;

verus! {

/// The value of `x` clamped from above to the largest `u64`.
pub open spec fn sat_u64(x: int) -> int {
    if x > u64::MAX as int {
        u64::MAX as int
    } else {
        x
    }
}

/// The value of `x` clamped from above to the largest `usize`.
pub open spec fn sat_usize(x: int) -> int {
    if x > usize::MAX as int {
        usize::MAX as int
    } else {
        x
    }
}

} // verus!
