//! Shared constants, errors, name types and validation rules.
pub mod constants;
pub mod errors;
pub mod seqs;
pub mod text;
pub mod types;
pub mod validation;
