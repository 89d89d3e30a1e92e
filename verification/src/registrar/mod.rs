//! Registration issuance, renewal policy and treasury accounting.
pub mod contract;
pub mod expiry;
pub mod pricing;
