//! Bids.
use vstd::prelude::*;
use crate::common::text::{is_blank, str_is_blank};

verus! {

#[derive(Debug, Clone, PartialEq, Eq)]
pub struct Bid {
    pub bidder: String,
    pub amount: u64,
    pub placed_at: u64,
}

pub struct BidView {
    pub bidder: Seq<char>,
    pub amount: u64,
    pub placed_at: u64,
}

impl View for Bid {
    type V = BidView;

    open spec fn view(&self) -> BidView {
        BidView { bidder: self.bidder@, amount: self.amount, placed_at: self.placed_at }
    }
}

impl Bid {
    pub fn new(bidder: &str, amount: u64, placed_at: u64) -> (r: Bid)
        ensures
            r@ == (BidView { bidder: bidder@, amount, placed_at }),
    {
        Bid { bidder: bidder.to_owned(), amount, placed_at }
    }

    /// A bid counts when it names a bidder and offers something.
    pub fn is_valid(&self) -> (r: bool)
        ensures
            r == (!is_blank(self.bidder@) && self.amount > 0),
    {
        !str_is_blank(self.bidder.as_str()) && self.amount > 0
    }

    pub fn duplicate(&self) -> (r: Bid)
        ensures
            r == *self,
    {
        Bid { bidder: self.bidder.clone(), amount: self.amount, placed_at: self.placed_at }
    }
}

/// The views of a list of bids.
pub open spec fn bids_view(bids: Seq<Bid>) -> Seq<BidView> {
    bids.map_values(|b: Bid| b@)
}

} // verus!
