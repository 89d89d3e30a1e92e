//! Delegated namespace management under registered parent names.
pub mod contract;
pub mod manager;
