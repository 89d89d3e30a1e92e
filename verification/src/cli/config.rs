//! The network a command runs against.
use vstd::prelude::*;
use crate::common::text::str_equals;

verus! {

#[derive(Debug, Clone, Copy, PartialEq, Eq, Structural)]
pub enum Network {
    Testnet,
    Mainnet,
}

impl Network {
    /// `testnet` or `mainnet`, exactly.
    pub fn parse(value: &str) -> (r: Option<Self>)
        ensures
            r == (if value@ == "testnet"@ {
                Some(Network::Testnet)
            } else if value@ == "mainnet"@ {
                Some(Network::Mainnet)
            } else {
                None
            }),
    {
        if str_equals(value, "testnet") {
            Some(Network::Testnet)
        } else if str_equals(value, "mainnet") {
            Some(Network::Mainnet)
        } else {
            None
        }
    }
}

} // verus!
