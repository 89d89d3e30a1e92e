//! Premium-name sales by sealed second-price auction.
pub mod bid;
pub mod contract;
pub mod settle;
