//! Small arithmetic helpers.
use vstd::prelude::*;

verus! {

/// Two signed numbers, kept together.
pub struct TwoNumbers {
    pub first: i64,
    pub second: i64,
}

/// The constant that `sum` adds.
pub const SUM_OFFSET: i64 = 5;

/// The sum of `a`, `b` and the constant five, computed as `a + b` first
/// and then `+ 5`; both steps must stay within `i64`.
pub fn sum(a: i64, b: i64) -> (r: i64)
    requires
        i64::MIN <= a + b <= i64::MAX,
        i64::MIN <= a + b + 5 <= i64::MAX,
    ensures
        r == a + b + 5,
{
    a + b + SUM_OFFSET
}

} // verus!
