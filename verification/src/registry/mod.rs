//! Canonical name ownership state and its lifecycle.
pub mod contract;
pub mod errors;
pub mod storage;
