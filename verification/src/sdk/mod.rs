//! Client-side request checks for wallets and applications.
pub mod client;
pub mod errors;
pub mod types;
