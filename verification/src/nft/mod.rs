//! Tokenized ownership of names.
pub mod contract;
