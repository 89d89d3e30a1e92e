//! A name service for Stellar: names such as `timmy.xlm` as owned identifiers,
//! with registration and renewal policy, a canonical registry, subdomains,
//! ownership tokens, premium-name auctions and cross-chain payloads.
pub mod common;
pub mod registrar;
pub mod registry;
pub mod subdomain;
pub mod nft;
pub mod auction;
pub mod bridge;
pub mod sdk;
pub mod cli;
