//! Bids collected per name.
use vstd::prelude::*;
use vstd::hash_map::StringHashMap;
use crate::auction::bid::{Bid, BidView, bids_view};
use crate::auction::settle::{Settlement, settle_vickrey, spec_settle};

verus! {

/// The bids placed on each name, in the order they arrived.
pub struct AuctionContract {
    auctions: StringHashMap<Vec<Bid>>,
}

fn copy_bids(v: &Vec<Bid>) -> (r: Vec<Bid>)
    ensures
        r@ == v@,
{
    let mut r: Vec<Bid> = Vec::new();
    let mut i: usize = 0;
    while i < v.len()
        invariant
            i <= v.len(),
            r@ == v@.take(i as int),
        decreases v.len() - i,
    {
        r.push(v[i].duplicate());
        i = i + 1;
        assert(r@ =~= v@.take(i as int));
    }
    assert(v@.take(v.len() as int) =~= v@);
    r
}

impl AuctionContract {
    /// The bids on each name that has any.
    pub closed spec fn auctions(&self) -> Map<Seq<char>, Seq<BidView>> {
        self.auctions@.map_values(|v: Vec<Bid>| bids_view(v@))
    }

    /// The bids on `name`, none if it has none.
    pub open spec fn bids_on(&self, name: Seq<char>) -> Seq<BidView> {
        if self.auctions().contains_key(name) {
            self.auctions()[name]
        } else {
            Seq::empty()
        }
    }

    pub fn new() -> (r: Self)
        ensures
            r.auctions() == Map::<Seq<char>, Seq<BidView>>::empty(),
    {
        let r = AuctionContract { auctions: StringHashMap::new() };
        assert(r.auctions() =~= Map::<Seq<char>, Seq<BidView>>::empty());
        r
    }

    /// Appends `bid` to the bids on `name`.
    pub fn place_bid(&mut self, name: &str, bid: Bid)
        ensures
            final(self).auctions() == old(self).auctions().insert(name@, old(self).bids_on(name@).push(bid@)),
    {
        let mut bids = match self.auctions.get(name) {
            Some(existing) => copy_bids(existing),
            None => Vec::new(),
        };
        let ghost before = bids@;
        assert(bids_view(before) =~= old(self).bids_on(name@));
        bids.push(bid);
        assert(bids_view(bids@) =~= bids_view(before).push(bids@[bids@.len() - 1]@));
        let ghost v = bids_view(bids@);
        self.auctions.insert(name.to_owned(), bids);
        assert(self.auctions() =~= old(self).auctions().insert(name@, v));
    }

    /// The second-price outcome of the bids on `name`, if it has any.
    pub fn settle(&self, name: &str) -> (r: Option<Settlement>)
        ensures
            match r {
                Some(s) => spec_settle(self.bids_on(name@)) == Some(s@),
                None => spec_settle(self.bids_on(name@)) is None,
            },
    {
        match self.auctions.get(name) {
            Some(bids) => settle_vickrey(bids),
            None => {
                assert(spec_settle(self.bids_on(name@)) is None);
                None
            },
        }
    }
}

impl Default for AuctionContract {
    fn default() -> (r: Self)
        ensures
            r.auctions() == Map::<Seq<char>, Seq<BidView>>::empty(),
    {
        AuctionContract::new()
    }
}

} // verus!
