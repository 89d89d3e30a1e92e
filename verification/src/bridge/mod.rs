//! Cross-chain resolution payloads.
pub mod axelar;
pub mod routes;
