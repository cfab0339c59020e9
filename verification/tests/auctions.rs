use nft_bid_market::market_core::AuctionArgs;
use nft_bid_market::{Market, MarketError, EXTENSION_DURATION};

fn args(start_price: u128, minimal_step: u128, duration: u64, buy_out: Option<u128>) -> AuctionArgs {
    AuctionArgs {
        token_type: None,
        minimal_step,
        start_price,
        start: 0,
        duration,
        buy_out_price: buy_out,
    }
}

fn setup_auction(start_price: u128, minimal_step: u128, duration: u64, buy_out: Option<u128>) -> (Market, u128) {
    let mut m = Market::new("market_owner".to_string(), None);
    let (id, _auction) = m.start_auction(
        args(start_price, minimal_step, duration, buy_out),
        "token1".to_string(),
        "user1".to_string(),
        1,
        "nft_contract".to_string(),
        0,
    );
    (m, id)
}

#[test]
fn auction_bids_respect_start_price_and_step() {
    // start_price 100, minimal_step 10
    let (mut m, id) = setup_auction(100, 10, 10_000_000_000_000, None);
    // the first bid must reach the start price
    let r = m.place_auction_bid(id, "user2".to_string(), 99, 5);
    assert_eq!(r.err(), Some(MarketError::BidBelowMinimalNextBid));
    let r = m.place_auction_bid(id, "user2".to_string(), 100, 5);
    assert!(matches!(r, Ok(None)));
    assert_eq!(m.queued_transfers.len(), 0);
    // 105 does not reach 100 + 10
    let r = m.place_auction_bid(id, "user3".to_string(), 105, 6);
    assert_eq!(r.err(), Some(MarketError::BidBelowMinimalNextBid));
    // 110 does, and the outbid 100 is refunded immediately
    let r = m.place_auction_bid(id, "user3".to_string(), 110, 7);
    assert!(matches!(r, Ok(None)));
    assert_eq!(m.queued_transfers.len(), 1);
    assert_eq!(m.queued_transfers[0].receiver_id, "user2".to_string());
    assert_eq!(m.queued_transfers[0].amount, 100);
    assert_eq!(m.queued_transfers[0].ft_token_id, "near".to_string());
    assert_eq!(m.get_current_bid(id), Ok(Some(110)));
    assert_eq!(m.get_current_buyer(id), Ok(Some("user3".to_string())));
    assert_eq!(m.get_minimal_next_bid(id), Ok(120));
}

#[test]
fn auction_bid_timing() {
    let (mut m, id) = setup_auction(100, 10, 1000, None);
    assert_eq!(m.check_auction_in_progress(id, 500), Ok(true));
    assert_eq!(m.check_auction_in_progress(id, 1000), Ok(false));
    // after the end no bid is accepted
    let r = m.place_auction_bid(id, "user2".to_string(), 100, 1000);
    assert_eq!(r.err(), Some(MarketError::AuctionNotInProgress));
    let r = m.place_auction_bid(7777, "user2".to_string(), 100, 5);
    assert_eq!(r.err(), Some(MarketError::AuctionNotFound));
}

#[test]
fn late_bid_extends_the_end() {
    let (mut m, id) = setup_auction(100, 10, 1000, None);
    // a bid with less than the grace period left pushes the end out
    let r = m.place_auction_bid(id, "user2".to_string(), 100, 900);
    assert!(matches!(r, Ok(None)));
    let j = m.get_auction_json(id).unwrap();
    assert_eq!(j.end, 900 + EXTENSION_DURATION);
    // and it re-arms: another qualifying late bid extends again
    let r = m.place_auction_bid(id, "user3".to_string(), 200, 1500);
    assert!(matches!(r, Ok(None)));
    let j = m.get_auction_json(id).unwrap();
    assert_eq!(j.end, 1500 + EXTENSION_DURATION);
}

#[test]
fn buy_out_finalizes_immediately() {
    let (mut m, id) = setup_auction(100, 10, 10_000_000_000_000, Some(500));
    // below the buy-out the auction keeps running
    let r = m.place_auction_bid(id, "user2".to_string(), 100, 5);
    assert!(matches!(r, Ok(None)));
    // a bid at the buy-out price finalizes in the same call, long before
    // the end of the duration
    let r = m.place_auction_bid(id, "user3".to_string(), 500, 6);
    let req = match r {
        Ok(Some(req)) => req,
        other => panic!("expected immediate finalization, got {:?}", other),
    };
    assert_eq!(req.buyer_id, "user3".to_string());
    assert_eq!(req.price, 500);
    assert_eq!(req.nft_contract_id, "nft_contract".to_string());
    assert_eq!(req.sale.owner_id, "user1".to_string());
    // the outbid 100 was refunded, and the auction is gone
    assert_eq!(m.queued_transfers.len(), 1);
    assert_eq!(m.queued_transfers[0].amount, 100);
    assert_eq!(m.market.auctions.len(), 0);
    assert_eq!(
        m.get_auction_json(id).err(),
        Some(MarketError::AuctionNotFound),
    );
}

#[test]
fn finish_auction_with_and_without_bid() {
    let (mut m, id) = setup_auction(100, 10, 1000, None);
    let r = m.finish_auction(id, 500);
    assert_eq!(r.err(), Some(MarketError::AuctionNotEnded));
    let r = m.place_auction_bid(id, "user2".to_string(), 150, 5);
    assert!(matches!(r, Ok(None)));
    let r = m.finish_auction(id, 2_000_000_000_000);
    let req = match r {
        Ok(Some(req)) => req,
        other => panic!("expected a settlement request, got {:?}", other),
    };
    assert_eq!(req.buyer_id, "user2".to_string());
    assert_eq!(req.price, 150);
    // finalization is at most once
    let r = m.finish_auction(id, 2_000_000_000_000);
    assert_eq!(r.err(), Some(MarketError::AuctionNotFound));

    // an auction nobody bid on just closes, with nothing to settle
    let (mut m2, id2) = setup_auction(100, 10, 1000, None);
    let r = m2.finish_auction(id2, 1000);
    assert!(matches!(r, Ok(None)));
    assert_eq!(m2.market.auctions.len(), 0);
    assert_eq!(m2.queued_transfers.len(), 0);
}

#[test]
fn auction_views_page_through_the_table() {
    let mut m = Market::new("market_owner".to_string(), None);
    let mut ids = Vec::new();
    let mut k: u64 = 0;
    while k < 5 {
        let (id, _a) = m.start_auction(
            args(100 + k as u128, 10, 1000, None),
            format!("token{}", k),
            "user1".to_string(),
            k,
            "nft_contract".to_string(),
            0,
        );
        ids.push(id);
        k += 1;
    }
    assert_eq!(ids, vec![0, 1, 2, 3, 4]);
    let all = m.get_auctions(None, None);
    assert_eq!(all.len(), 5);
    assert_eq!(all[0].auction_id, 0);
    assert_eq!(all[4].auction_id, 4);
    assert_eq!(all[2].token_id, "token2".to_string());
    let page = m.get_auctions(Some(1), Some(2));
    assert_eq!(page.len(), 2);
    assert_eq!(page[0].auction_id, 1);
    assert_eq!(page[1].auction_id, 2);
    let tail = m.get_auctions(Some(4), Some(10));
    assert_eq!(tail.len(), 1);
    assert_eq!(tail[0].auction_id, 4);
    let beyond = m.get_auctions(Some(9), None);
    assert_eq!(beyond.len(), 0);
    // a fresh auction keeps no buyer and no current bid
    assert_eq!(m.get_current_buyer(0), Ok(None));
    assert_eq!(m.get_current_bid(0), Ok(None));
    assert_eq!(m.get_minimal_next_bid(3), Ok(103));
}
