//! Settings of the command-line tool.
pub mod config;
