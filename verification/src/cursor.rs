//! Saturating arithmetic on the signed scroll cursor.
use vstd::prelude::*;

verus! {

/// Mathematical saturation of an integer into the range of `i64`.
pub open spec fn sat_i64(x: int) -> int {
    if x > i64::MAX {
        i64::MAX as int
    } else if x < i64::MIN {
        i64::MIN as int
    } else {
        x
    }
}

/// `a + b`, clamped to the range of `i64`.
pub fn saturating_add_i64(a: i64, b: i64) -> (r: i64)
    ensures
        r == sat_i64(a + b),
{
    match a.checked_add(b) {
        Some(v) => v,
        None => {
            if b > 0 {
                i64::MAX
            } else {
                i64::MIN
            }
        },
    }
}

/// `a - b`, clamped to the range of `i64`.
pub fn saturating_sub_i64(a: i64, b: i64) -> (r: i64)
    ensures
        r == sat_i64(a - b),
{
    match a.checked_sub(b) {
        Some(v) => v,
        None => {
            if b > 0 {
                i64::MIN
            } else {
                i64::MAX
            }
        },
    }
}

} // verus!
