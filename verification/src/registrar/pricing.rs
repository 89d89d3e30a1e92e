//! Annual fees by label length.
use vstd::prelude::*;

verus! {

/// Annual fee, in stroops, for a label of `len` bytes: the shorter the label,
/// the higher the fee.
pub open spec fn annual_price(len: nat) -> u64 {
    if len <= 3 {
        1_000_000_000u64
    } else if len == 4 {
        500_000_000u64
    } else {
        100_000_000u64
    }
}

/// `a * b`, or `u64::MAX` where the product does not fit.
pub open spec fn sat_mul(a: u64, b: u64) -> u64 {
    if a * b > u64::MAX {
        u64::MAX
    } else {
        (a * b) as u64
    }
}

pub fn saturating_mul_u64(a: u64, b: u64) -> (r: u64)
    ensures
        r == sat_mul(a, b),
{
    match a.checked_mul(b) {
        Some(v) => v,
        None => u64::MAX,
    }
}

pub fn price_for_label_length(len: usize) -> (r: u64)
    ensures
        r == annual_price(len as nat),
{
    if len <= 3 {
        1_000_000_000u64
    } else if len == 4 {
        500_000_000u64
    } else {
        100_000_000u64
    }
}

} // verus!
