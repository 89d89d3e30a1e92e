use xlm_ns::auction::bid::Bid;
use xlm_ns::auction::contract::AuctionContract;
use xlm_ns::auction::settle::settle_vickrey;
use xlm_ns::nft::contract::{NftContract, NftError};

#[test]
fn mints_tokens_once() {
    let mut nft = NftContract::default();
    assert_eq!(nft.mint("timmy.xlm", "GABC", Some("ipfs://meta".to_string())), Ok(()));
    assert_eq!(nft.owner_of("timmy.xlm"), Some("GABC"));
    let token = nft.token("timmy.xlm").unwrap();
    assert_eq!(token.approved, None);
    assert_eq!(token.metadata_uri, Some("ipfs://meta".to_string()));
    assert_eq!(nft.mint("timmy.xlm", "GDEF", None), Err(NftError::AlreadyMinted));
    assert_eq!(nft.owner_of("timmy.xlm"), Some("GABC"));
    assert_eq!(nft.owner_of("other.xlm"), None);
    assert!(nft.token("other.xlm").is_none());
    assert_eq!(NftError::NotFound.message(), "token was not found");
}

#[test]
fn bids_are_checked() {
    let bid = Bid::new("GABC", 10, 5);
    assert_eq!(bid.bidder, "GABC");
    assert_eq!(bid.placed_at, 5);
    assert!(bid.is_valid());
    assert!(!Bid::new("  ", 10, 5).is_valid());
    assert!(!Bid::new("GABC", 0, 5).is_valid());
}

#[test]
fn settles_at_second_price() {
    let mut auction = AuctionContract::default();
    assert!(auction.settle("rare.xlm").is_none());
    auction.place_bid("rare.xlm", Bid::new("GA", 100, 1));
    let lone = auction.settle("rare.xlm").unwrap();
    assert_eq!((lone.winner.as_str(), lone.winning_bid, lone.price), ("GA", 100, 100));
    auction.place_bid("rare.xlm", Bid::new("GB", 300, 2));
    auction.place_bid("rare.xlm", Bid::new("GC", 200, 3));
    let s = auction.settle("rare.xlm").unwrap();
    assert_eq!(s.winner, "GB");
    assert_eq!(s.winning_bid, 300);
    assert_eq!(s.price, 200);
    assert!(auction.settle("other.xlm").is_none());
}

#[test]
fn ties_go_to_the_earliest_bid() {
    let bids = vec![Bid::new("GA", 50, 1), Bid::new("GB", 50, 2), Bid::new("GC", 10, 3)];
    let s = settle_vickrey(&bids).unwrap();
    assert_eq!(s.winner, "GA");
    assert_eq!(s.price, 50);
    assert!(settle_vickrey(&Vec::new()).is_none());
}
