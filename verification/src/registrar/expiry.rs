//! Expiry arithmetic.
use vstd::prelude::*;
use crate::common::constants::SECONDS_PER_YEAR;
use crate::registrar::pricing::{sat_mul, saturating_mul_u64};

verus! {

/// The moment `years` years after `start`, saturating at `u64::MAX`.
pub open spec fn expiry_after(start: u64, years: u64) -> u64 {
    start.saturating_add(sat_mul(years, SECONDS_PER_YEAR))
}

pub fn expiry_from_now(now_unix: u64, years: u64) -> (r: u64)
    ensures
        r == expiry_after(now_unix, years),
        r >= now_unix,
{
    now_unix.saturating_add(saturating_mul_u64(years, SECONDS_PER_YEAR))
}

} // verus!
