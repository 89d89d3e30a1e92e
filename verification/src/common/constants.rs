//! Protocol-wide limits and durations.
use vstd::prelude::*;

verus! {

/// Shortest label accepted, in bytes.
pub const MIN_NAME_LENGTH: usize = 3usize;

/// Longest label accepted, in bytes.
pub const MAX_NAME_LENGTH: usize = 63usize;

/// Fewest years a registration may run for.
pub const MIN_REGISTRATION_YEARS: u64 = 1u64;

/// Most years a registration may run for.
pub const MAX_REGISTRATION_YEARS: u64 = 10u64;

/// Length of a year in the expiry arithmetic.
pub const SECONDS_PER_YEAR: u64 = 31_536_000u64;

/// Time after expiry during which only the previous owner may renew.
pub const GRACE_PERIOD_SECONDS: u64 = 2_592_000u64;

/// Time-to-live given to freshly registered registry entries.
pub const DEFAULT_TTL_SECONDS: u64 = 3_600u64;

/// Longest metadata URI a registry entry may hold, in bytes.
pub const MAX_METADATA_URI_LENGTH: usize = 256usize;

} // verus!
