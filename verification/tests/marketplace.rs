use voice_contracts::marketplace::contract::Marketplace;
use voice_contracts::marketplace::model::{MarketError, MARKETPLACE_FEE};

fn accounts(i: usize) -> String {
    ["alice", "bob", "charlie", "danny", "eugene", "fargo"][i].to_string()
}

const MS: u64 = 1_000_000;

#[test]
fn new_marketplace_is_empty() {
    let m = Marketplace::new(accounts(0));
    assert_eq!(m.owner_id(), accounts(0));
    assert_eq!(MARKETPLACE_FEE, 250);
    assert_eq!(m.get_total_items(), "0");
    assert_eq!(m.get_total_sales(), "0");
    assert_eq!(m.get_total_auctions(), "0");
    assert_eq!(m.get_total_bids(), "0");
    assert!(m.get_item(1).is_none());
    assert!(m.get_sale(1).is_none());
    assert!(m.get_auction(1).is_none());
    assert!(m.get_bid(1).is_none());
    assert!(m.get_items_by_owner(accounts(0)).is_empty());
    assert!(m.get_sales_by_seller(accounts(0)).is_empty());
    assert!(m.get_auctions_by_seller(accounts(0)).is_empty());
    assert!(m.get_bids_by_bidder(accounts(0)).is_empty());
    assert!(m.get_sales_by_buyer(accounts(0)).is_empty());
}

#[test]
fn sales_take_the_number_after_the_items() {
    let mut m = Marketplace::new(accounts(0));
    assert_eq!(m.create_sale(&accounts(1), 5_000, Some(100), 7 * MS + 999_999), Ok(1));
    let sale = m.get_sale(1).unwrap();
    assert_eq!(sale.id, "1");
    assert_eq!(sale.seller_id, accounts(1));
    assert_eq!(sale.price, "5000");
    assert_eq!(sale.royalty, Some("100".to_string()));
    assert_eq!(sale.created_at, "7");
    assert_eq!(sale.updated_at, "7");
    // No item is ever counted, so the next sale takes the same number and the
    // place of the first.
    assert_eq!(m.create_sale(&accounts(2), 6_000, None, 9 * MS), Ok(1));
    let sale = m.get_sale(1).unwrap();
    assert_eq!(sale.seller_id, accounts(2));
    assert_eq!(sale.price, "6000");
    assert_eq!(sale.royalty, None);
    assert_eq!(sale.created_at, "9");
    assert!(m.get_sale(2).is_none());
    assert_eq!(m.get_total_sales(), "2");
    assert_eq!(m.get_total_items(), "0");
    assert_eq!(m.get_sales_by_seller(accounts(1)), vec!["1"]);
    assert_eq!(m.get_sales_by_seller(accounts(2)), vec!["1"]);
    assert_eq!(m.get_items_by_owner(accounts(1)), vec!["1"]);
    assert!(m.get_items_by_owner(accounts(3)).is_empty());
    m.create_sale(&accounts(1), 1, None, 0).unwrap();
    assert_eq!(m.get_sales_by_seller(accounts(1)), vec!["1"]);
    assert_eq!(m.get_total_sales(), "3");
}

#[test]
fn nothing_can_be_bought_while_there_are_no_items() {
    let mut m = Marketplace::new(accounts(0));
    m.create_sale(&accounts(1), 5_000, None, 0).unwrap();
    assert_eq!(m.buy_item(&accounts(2), 1, 5_000).unwrap_err(), MarketError::ItemNotFound);
    assert_eq!(m.buy_item(&accounts(2), 0, u128::MAX).unwrap_err(), MarketError::ItemNotFound);
    assert!(m.get_sales_by_buyer(accounts(2)).is_empty());
}

#[test]
fn auctions_take_bids_within_their_time() {
    let mut m = Marketplace::new(accounts(0));
    assert_eq!(m.create_auction(&accounts(1), 100, 900, Some(7), 1_000, 2_000, 3 * MS), Ok(1));
    let auction = m.get_auction(1).unwrap();
    assert_eq!(auction.id, "1");
    assert_eq!(auction.seller_id, accounts(1));
    assert_eq!((auction.start_price.as_str(), auction.end_price.as_str()), ("100", "900"));
    assert_eq!(auction.royalty, Some("7".to_string()));
    assert_eq!((auction.start_time.as_str(), auction.end_time.as_str()), ("1000", "2000"));
    assert!(auction.highest_bidder_id.is_none());
    assert!(auction.highest_bid.is_none());
    assert_eq!(auction.created_at, "3");
    assert_eq!(m.get_auctions_by_seller(accounts(1)), vec!["1"]);
    assert_eq!(m.get_items_by_owner(accounts(1)), vec!["1"]);

    assert_eq!(m.place_bid(&accounts(2), 2, 10, 1_500).unwrap_err(), MarketError::AuctionNotFound);
    assert_eq!(m.place_bid(&accounts(2), 1, 10, 999).unwrap_err(), MarketError::AuctionNotStarted);
    assert_eq!(m.place_bid(&accounts(2), 1, 10, 2_001).unwrap_err(), MarketError::AuctionEnded);
    assert_eq!(m.place_bid(&accounts(2), 1, 0, 1_500).unwrap_err(), MarketError::BidTooLow);
    assert_eq!(
        m.place_bid(&accounts(2), 1, u128::MAX, 1_500).unwrap_err(),
        MarketError::ArithmeticOverflow
    );
    let pay = m.place_bid(&accounts(2), 1, 10_000, 1_000).unwrap();
    assert_eq!(pay.owner_id, accounts(0));
    assert_eq!(pay.fee, 250);
    assert_eq!(pay.seller_id, accounts(1));
    assert_eq!(pay.proceeds, 9_750);
    assert_eq!(m.place_bid(&accounts(3), 1, 10_000, 1_500).unwrap_err(), MarketError::BidTooLow);
    let pay = m.place_bid(&accounts(3), 1, 10_001, 2_000).unwrap();
    assert_eq!((pay.fee, pay.proceeds), (250, 9_751));
    let pay = m.place_bid(&accounts(2), 1, 39_999, 2_000).unwrap();
    assert_eq!((pay.fee, pay.proceeds), (999, 39_000));
    let auction = m.get_auction(1).unwrap();
    assert_eq!(auction.highest_bidder_id, Some(accounts(2)));
    assert_eq!(auction.highest_bid, Some("39999".to_string()));
    assert_eq!(m.get_total_bids(), "3");
    assert_eq!(m.get_bids_by_bidder(accounts(2)), vec!["1", "3"]);
    assert_eq!(m.get_bids_by_bidder(accounts(3)), vec!["2"]);
    assert!(m.get_bid(1).is_none());
}

#[test]
fn a_bid_of_one_pays_no_fee() {
    let mut m = Marketplace::new(accounts(0));
    m.create_auction(&accounts(1), 0, 0, None, 0, 10, 0).unwrap();
    let pay = m.place_bid(&accounts(2), 1, 1, 0).unwrap();
    assert_eq!((pay.fee, pay.proceeds), (0, 1));
    let pay = m.place_bid(&accounts(2), 1, 40, 10).unwrap();
    assert_eq!((pay.fee, pay.proceeds), (1, 39));
    let most = u128::MAX / 250;
    let pay = m.place_bid(&accounts(2), 1, most, 10).unwrap();
    assert_eq!(pay.fee, most * 250 / 10_000);
    assert_eq!(pay.fee + pay.proceeds, most);
    assert_eq!(m.place_bid(&accounts(2), 1, most + 1, 10).unwrap_err(), MarketError::ArithmeticOverflow);
}

#[test]
fn auctions_end_after_their_time() {
    let mut m = Marketplace::new(accounts(0));
    m.create_auction(&accounts(1), 100, 900, None, 1_000, 2_000, 0).unwrap();
    assert_eq!(m.end_auction(2, 5_000), Err(MarketError::AuctionNotFound));
    assert_eq!(m.end_auction(1, 2_000), Err(MarketError::AuctionNotEnded));
    assert_eq!(m.end_auction(1, 2_001), Ok(()));
    assert!(m.get_auction(1).is_none());
    assert_eq!(m.end_auction(1, 2_001), Err(MarketError::AuctionNotFound));
    // The seller keeps the number to its name, but the auction is there no more.
    assert_eq!(m.get_auctions_by_seller(accounts(1)), vec!["1"]);
    assert!(m.get_items_by_owner(accounts(1)).is_empty());
    assert_eq!(m.get_total_auctions(), "1");
}

#[test]
fn an_auction_with_a_bid_cannot_end_without_its_item() {
    let mut m = Marketplace::new(accounts(0));
    m.create_auction(&accounts(1), 100, 900, None, 1_000, 2_000, 0).unwrap();
    m.place_bid(&accounts(2), 1, 500, 1_500).unwrap();
    assert_eq!(m.end_auction(1, 2_001), Err(MarketError::ItemNotFound));
    assert!(m.get_auction(1).is_some());
    assert!(m.get_sales_by_buyer(accounts(2)).is_empty());
}

#[test]
fn sales_and_auctions_of_one_owner_are_listed_together() {
    let mut m = Marketplace::new(accounts(0));
    m.create_auction(&accounts(1), 1, 2, None, 0, 10, 0).unwrap();
    m.create_sale(&accounts(1), 5, None, 0).unwrap();
    m.create_sale(&accounts(2), 5, None, 0).unwrap();
    assert_eq!(m.get_items_by_owner(accounts(1)), vec!["1", "1"]);
    assert_eq!(m.get_items_by_owner(accounts(2)), vec!["1"]);
    m.end_auction(1, 11).unwrap();
    assert_eq!(m.get_items_by_owner(accounts(1)), vec!["1"]);
}

#[test]
fn marketplace_reasons_are_short_texts() {
    assert_eq!(MarketError::ItemNotFound.message(), "Item not found");
    assert_eq!(MarketError::NotForSale.message(), "Item is not for sale");
    assert_eq!(MarketError::InsufficientDeposit.message(), "Insufficient deposit");
    assert_eq!(MarketError::AuctionNotFound.message(), "Auction not found");
    assert_eq!(MarketError::AuctionNotStarted.message(), "Auction has not started");
    assert_eq!(MarketError::AuctionEnded.message(), "Auction has ended");
    assert_eq!(MarketError::BidTooLow.message(), "Bid is not high enough");
    assert_eq!(MarketError::AuctionNotEnded.message(), "Auction has not ended yet");
    assert_eq!(MarketError::ArithmeticOverflow.message(), "Arithmetic overflow");
}

use voice_contracts::marketplace::model::{Bid, MarketItem, MarketItemType};

/// A marketplace of alice with two items: 1 for sale by bob at 10000, 2 in an
/// auction of charlie; and one bid on record.
fn stocked() -> Marketplace {
    let mut s = Marketplace::new(accounts(0)).into_snapshot();
    s.items.push(MarketItem {
        id: 1,
        item_type: MarketItemType::Sale { price: 10_000, seller_id: accounts(1), royalty: Some(500) },
        buyer_id: None,
        created_at: 11,
        updated_at: 12,
    });
    s.items.push(MarketItem {
        id: 2,
        item_type: MarketItemType::Auction {
            start_price: 100,
            seller_id: accounts(2),
            end_price: 900,
            royalty: None,
            start_time: 1_000,
            end_time: 2_000,
        },
        buyer_id: None,
        created_at: 13,
        updated_at: 14,
    });
    s.bids.push(Bid { id: 7, bidder_id: accounts(3), auction_id: 2, amount: 150, created_at: 15 });
    s.total_items = 1;
    Marketplace::from_snapshot(s).unwrap()
}

#[test]
fn items_and_bids_are_shown_as_text() {
    let m = stocked();
    let sale = m.get_item(1).unwrap();
    assert_eq!(sale.id, "1");
    assert_eq!(sale.item_type, "sale");
    assert_eq!(sale.seller_id, accounts(1));
    assert_eq!(sale.price, Some("10000".to_string()));
    assert_eq!(sale.royalty, Some("500".to_string()));
    assert!(sale.buyer_id.is_none() && sale.start_price.is_none() && sale.end_price.is_none());
    assert!(sale.start_time.is_none() && sale.end_time.is_none());
    assert_eq!((sale.created_at.as_str(), sale.updated_at.as_str()), ("11", "12"));
    let auction = m.get_item(2).unwrap();
    assert_eq!(auction.item_type, "auction");
    assert_eq!(auction.seller_id, accounts(2));
    assert!(auction.price.is_none() && auction.royalty.is_none());
    assert_eq!(auction.start_price, Some("100".to_string()));
    assert_eq!(auction.end_price, Some("900".to_string()));
    assert_eq!(auction.start_time, Some("1000".to_string()));
    assert_eq!(auction.end_time, Some("2000".to_string()));
    assert!(m.get_item(3).is_none());
    let bid = m.get_bid(7).unwrap();
    assert_eq!(bid.id, "7");
    assert_eq!(bid.bidder_id, accounts(3));
    assert_eq!(bid.auction_id, "2");
    assert_eq!(bid.amount, "150");
    assert_eq!(bid.created_at, "15");
    assert_eq!(m.get_total_items(), "1");
}

#[test]
fn buying_pays_the_fee_and_the_seller() {
    let mut m = stocked();
    assert_eq!(m.buy_item(&accounts(4), 1, 9_999).unwrap_err(), MarketError::InsufficientDeposit);
    assert_eq!(m.buy_item(&accounts(4), 2, u128::MAX).unwrap_err(), MarketError::NotForSale);
    assert_eq!(m.buy_item(&accounts(4), 3, u128::MAX).unwrap_err(), MarketError::ItemNotFound);
    let pay = m.buy_item(&accounts(4), 1, 50_000).unwrap();
    assert_eq!(pay.owner_id, accounts(0));
    assert_eq!(pay.fee, 250);
    assert_eq!(pay.seller_id, accounts(1));
    assert_eq!(pay.proceeds, 9_750);
    assert_eq!(m.get_item(1).unwrap().buyer_id, Some(accounts(4)));
    assert_eq!(m.get_sales_by_buyer(accounts(4)), vec!["1"]);
    // Nothing keeps an item from being bought again.
    m.buy_item(&accounts(5), 1, 10_000).unwrap();
    assert_eq!(m.get_item(1).unwrap().buyer_id, Some(accounts(5)));
    m.buy_item(&accounts(4), 1, 10_000).unwrap();
    assert_eq!(m.get_sales_by_buyer(accounts(4)), vec!["1"]);
}

#[test]
fn a_price_too_high_for_the_fee_cannot_be_bought() {
    let mut s = Marketplace::new(accounts(0)).into_snapshot();
    s.items.push(MarketItem {
        id: 1,
        item_type: MarketItemType::Sale { price: u128::MAX / 250 + 1, seller_id: accounts(1), royalty: None },
        buyer_id: None,
        created_at: 0,
        updated_at: 0,
    });
    let mut m = Marketplace::from_snapshot(s).unwrap();
    assert_eq!(m.buy_item(&accounts(4), 1, u128::MAX).unwrap_err(), MarketError::ArithmeticOverflow);
}

#[test]
fn the_highest_bidder_gets_the_item_of_the_auctions_number() {
    let mut m = stocked();
    // One item is counted, so the auction takes the number 2.
    assert_eq!(m.create_auction(&accounts(2), 100, 900, None, 1_000, 2_000, 0), Ok(2));
    m.place_bid(&accounts(3), 2, 500, 1_500).unwrap();
    m.end_auction(2, 2_001).unwrap();
    assert!(m.get_auction(2).is_none());
    assert_eq!(m.get_item(2).unwrap().buyer_id, Some(accounts(3)));
    assert_eq!(m.get_sales_by_buyer(accounts(3)), vec!["2"]);
}

#[test]
fn a_marketplace_state_with_a_number_twice_is_refused() {
    let mut s = stocked().into_snapshot();
    assert!(s.is_well_formed());
    s.items[1].id = 1;
    assert!(Marketplace::from_snapshot(s).is_none());
    let mut m = stocked();
    m.create_sale(&accounts(1), 1, None, 0).unwrap();
    let mut s = m.into_snapshot();
    s.sales_by_seller[0].ids.push(3);
    assert!(s.is_well_formed());
    s.sales_by_seller[0].ids.push(3);
    assert!(Marketplace::from_snapshot(s).is_none());
}
