//! Second-price settlement.
use vstd::prelude::*;
use crate::auction::bid::{Bid, BidView, bids_view};

verus! {

#[derive(Debug, Clone, PartialEq, Eq)]
pub struct Settlement {
    pub winner: String,
    pub winning_bid: u64,
    pub price: u64,
}

pub struct SettlementView {
    pub winner: Seq<char>,
    pub winning_bid: u64,
    pub price: u64,
}

impl View for Settlement {
    type V = SettlementView;

    open spec fn view(&self) -> SettlementView {
        SettlementView { winner: self.winner@, winning_bid: self.winning_bid, price: self.price }
    }
}

/// Position of the earliest highest bid among the first `n` bids.
pub open spec fn leading_index(bids: Seq<BidView>, n: int) -> int
    decreases n,
{
    if n <= 1 {
        0
    } else {
        let k = leading_index(bids, n - 1);
        if bids[n - 1].amount > bids[k].amount {
            n - 1
        } else {
            k
        }
    }
}

/// Highest amount among the first `n` bids other than the one at `w`, or 0 if none.
pub open spec fn runner_up(bids: Seq<BidView>, w: int, n: int) -> u64
    decreases n,
{
    if n <= 0 {
        0
    } else {
        let m = runner_up(bids, w, n - 1);
        if n - 1 == w || bids[n - 1].amount <= m {
            m
        } else {
            bids[n - 1].amount
        }
    }
}

/// The earliest highest bid wins and pays the highest other bid; a lone bid
/// pays its own amount; no bids, no sale.
pub open spec fn spec_settle(bids: Seq<BidView>) -> Option<SettlementView> {
    if bids.len() == 0 {
        None
    } else {
        let w = leading_index(bids, bids.len() as int);
        Some(
            SettlementView {
                winner: bids[w].bidder,
                winning_bid: bids[w].amount,
                price: if bids.len() == 1 {
                    bids[w].amount
                } else {
                    runner_up(bids, w, bids.len() as int)
                },
            },
        )
    }
}

proof fn lemma_leading_index(bids: Seq<BidView>, n: int)
    requires
        1 <= n <= bids.len(),
    ensures
        0 <= leading_index(bids, n) < n,
        forall|j: int| #![trigger bids[j]] 0 <= j < n ==> bids[j].amount <= bids[leading_index(bids, n)].amount,
        forall|j: int| #![trigger bids[j]] 0 <= j < leading_index(bids, n) ==> bids[j].amount < bids[leading_index(bids, n)].amount,
    decreases n,
{
    if n > 1 {
        lemma_leading_index(bids, n - 1);
    }
}

proof fn lemma_runner_up(bids: Seq<BidView>, w: int, n: int)
    requires
        0 <= n <= bids.len(),
    ensures
        forall|j: int| #![trigger bids[j]] 0 <= j < n && j != w ==> bids[j].amount <= runner_up(bids, w, n),
        runner_up(bids, w, n) == 0 || exists|j: int| #![trigger bids[j]] 0 <= j < n && j != w && bids[j].amount == runner_up(bids, w, n),
    decreases n,
{
    if n > 0 {
        lemma_runner_up(bids, w, n - 1);
    }
}

/// Law: the settlement of a non-empty list of bids in terms of the bids
/// alone. The winner is the earliest of the highest bids; with a single bid
/// the price is that bid; with two or more the price is exactly the highest
/// amount among the other bids: at least each of them, and equal to one of
/// them. With no bids there is no settlement.
pub proof fn lemma_settlement_is_second_price(bids: Seq<BidView>)
    ensures
        spec_settle(bids) is None <==> bids.len() == 0,
        bids.len() > 0 ==> exists|w: int| #![trigger bids[w]] {
            &&& 0 <= w < bids.len()
            &&& bids[w].bidder == spec_settle(bids)->0.winner
            &&& bids[w].amount == spec_settle(bids)->0.winning_bid
            &&& forall|j: int| #![trigger bids[j]] 0 <= j < bids.len() ==> bids[j].amount <= bids[w].amount
            &&& forall|j: int| #![trigger bids[j]] 0 <= j < w ==> bids[j].amount < bids[w].amount
            &&& (bids.len() == 1 ==> spec_settle(bids)->0.price == bids[w].amount)
            &&& (bids.len() >= 2 ==> (forall|j: int| #![trigger bids[j]] 0 <= j < bids.len() && j != w
                ==> bids[j].amount <= spec_settle(bids)->0.price))
            &&& (bids.len() >= 2 ==> exists|j: int| #![trigger bids[j]] 0 <= j < bids.len() && j != w
                && bids[j].amount == spec_settle(bids)->0.price)
        },
{
    let n = bids.len() as int;
    if n > 0 {
        lemma_leading_index(bids, n);
        let w = leading_index(bids, n);
        lemma_runner_up(bids, w, n);
        if n >= 2 {
            let r = runner_up(bids, w, n);
            if r == 0 {
                let j = if w == 0 { 1int } else { 0int };
                assert(bids[j].amount <= r);
                assert(bids[j].amount == spec_settle(bids)->0.price);
            } else {
                let j = choose|j: int| #![trigger bids[j]] 0 <= j < n && j != w && bids[j].amount == r;
                assert(bids[j].amount == spec_settle(bids)->0.price);
            }
        }
        assert(bids[w].bidder == spec_settle(bids)->0.winner);
    }
}

/// Settles a list of bids by the second-price rule.
pub fn settle_vickrey(bids: &Vec<Bid>) -> (r: Option<Settlement>)
    ensures
        match r {
            Some(s) => spec_settle(bids_view(bids@)) == Some(s@),
            None => spec_settle(bids_view(bids@)) is None,
        },
        r is None <==> bids.len() == 0,
        r matches Some(s) ==> exists|w: int| #![trigger bids@[w]] {
            &&& 0 <= w < bids.len()
            &&& bids@[w].bidder@ == s.winner@
            &&& bids@[w].amount == s.winning_bid
            &&& forall|j: int| #![trigger bids@[j]] 0 <= j < bids.len() ==> bids@[j].amount <= s.winning_bid
            &&& forall|j: int| #![trigger bids@[j]] 0 <= j < w ==> bids@[j].amount < s.winning_bid
            &&& (bids.len() == 1 ==> s.price == s.winning_bid)
            &&& (bids.len() >= 2 ==> (forall|j: int| #![trigger bids@[j]] 0 <= j < bids.len() && j != w
                ==> bids@[j].amount <= s.price))
            &&& (bids.len() >= 2 ==> exists|j: int| #![trigger bids@[j]] 0 <= j < bids.len() && j != w
                && bids@[j].amount == s.price)
        },
{
    proof {
        lemma_settlement_is_second_price(bids_view(bids@));
    }
    let ghost v = bids_view(bids@);
    let n = bids.len();
    if n == 0 {
        return None;
    }
    let mut w: usize = 0;
    let mut i: usize = 1;
    while i < n
        invariant
            n == bids.len(),
            v == bids_view(bids@),
            1 <= i <= n,
            w == leading_index(v, i as int),
            w < i,
        decreases n - i,
    {
        if bids[i].amount > bids[w].amount {
            w = i;
        }
        i = i + 1;
    }
    let mut second: u64 = 0;
    let mut j: usize = 0;
    while j < n
        invariant
            n == bids.len(),
            v == bids_view(bids@),
            j <= n,
            w < n,
            second == runner_up(v, w as int, j as int),
        decreases n - j,
    {
        if j != w && bids[j].amount > second {
            second = bids[j].amount;
        }
        j = j + 1;
    }
    let price = if n == 1 {
        bids[w].amount
    } else {
        second
    };
    proof {
        let wi = w as int;
        let ni = n as int;
        lemma_leading_index(v, ni);
        lemma_runner_up(v, wi, ni);
        assert forall|j: int| #![trigger bids@[j]] 0 <= j < ni implies v[j] == bids@[j]@ by {}
        assert forall|j: int| #![trigger bids@[j]] 0 <= j < ni implies bids@[j].amount <= bids@[wi].amount by {
            assert(v[j] == bids@[j]@);
        }
        assert forall|j: int| #![trigger bids@[j]] 0 <= j < wi implies bids@[j].amount < bids@[wi].amount by {
            assert(v[j] == bids@[j]@);
        }
        if n >= 2 {
            assert forall|j: int| #![trigger bids@[j]] 0 <= j < ni && j != wi implies bids@[j].amount <= price by {
                assert(v[j] == bids@[j]@);
            }
            if second == 0 {
                let j = if wi == 0 { 1int } else { 0int };
                assert(v[j] == bids@[j]@);
                assert(bids@[j].amount == price);
            } else {
                let j = choose|j: int| #![trigger v[j]] 0 <= j < ni && j != wi && v[j].amount == second;
                assert(v[j] == bids@[j]@);
                assert(bids@[j].amount == price);
            }
        }
    }
    Some(Settlement { winner: bids[w].bidder.clone(), winning_bid: bids[w].amount, price })
}

} // verus!
