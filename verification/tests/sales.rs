use nft_bid_market::market_core::{ArgsKind, AuctionArgs, SaleArgs, TokenSeriesSale};
use nft_bid_market::sale::{protocol_fee, OfferOutcome, SaleCondition};
use nft_bid_market::{Market, MarketError, STORAGE_PER_SALE};

fn sale_args(price: u128) -> ArgsKind {
    let mut conds = Vec::new();
    conds.push(SaleCondition { ft_token_id: "near".to_string(), price });
    ArgsKind::Sale(SaleArgs {
        sale_conditions: conds,
        token_type: None,
        start: None,
        end: None,
    })
}

fn setup_market_with_sale(price: u128) -> Market {
    let mut m = Market::new("market_owner".to_string(), None);
    m.storage_deposit("user1".to_string(), STORAGE_PER_SALE);
    let r = m.nft_on_approve(
        "token1".to_string(),
        "user1".to_string(),
        1,
        sale_args(price),
        "nft_contract".to_string(),
        "user1".to_string(),
        0,
    );
    assert!(matches!(r, Ok(None)));
    m
}

#[test]
fn offer_at_asking_price_settles_immediately() {
    let mut m = setup_market_with_sale(10000);
    let r = m.offer(
        "nft_contract".to_string(),
        "token1".to_string(),
        None,
        None,
        "user2".to_string(),
        10000,
        0,
    );
    let req = match r {
        Ok(OfferOutcome::PurchaseStarted(req)) => req,
        other => panic!("expected immediate settlement, got {:?}", other),
    };
    assert_eq!(req.price, 10000);
    assert_eq!(req.buyer_id, "user2".to_string());
    assert_eq!(req.approval_id, 1);
    assert_eq!(req.ft_token_id, "near".to_string());
    // no bid was recorded, and the listing left the store
    assert_eq!(req.sale.bids.len(), 0);
    assert_eq!(m.market.sales.len(), 0);
}

#[test]
fn settlement_is_at_most_once() {
    let mut m = setup_market_with_sale(10000);
    let r = m.process_purchase(
        "nft_contract".to_string(),
        "token1".to_string(),
        "near".to_string(),
        10000,
        "user2".to_string(),
    );
    assert!(r.is_ok());
    // the listing was removed before anything asynchronous happens, so a
    // second match attempt on the same key fails its lookup
    let r = m.process_purchase(
        "nft_contract".to_string(),
        "token1".to_string(),
        "near".to_string(),
        10000,
        "user3".to_string(),
    );
    assert_eq!(
        r.err(),
        Some(MarketError::NoSale),
    );
    let r = m.offer(
        "nft_contract".to_string(),
        "token1".to_string(),
        None,
        None,
        "user3".to_string(),
        10000,
        0,
    );
    assert!(matches!(r, Err(MarketError::NoSale)));
}

#[test]
fn offer_rejections() {
    let mut m = setup_market_with_sale(10000);
    let r = m.offer(
        "unknown".to_string(),
        "token1".to_string(),
        None,
        None,
        "user2".to_string(),
        10000,
        0,
    );
    assert!(matches!(r, Err(MarketError::NoSale)));
    // the seller cannot bid on their own sale
    let r = m.offer(
        "nft_contract".to_string(),
        "token1".to_string(),
        None,
        None,
        "user1".to_string(),
        900,
        0,
    );
    assert!(matches!(r, Err(MarketError::CannotBidOnOwnSale)));
    // a deposit of zero buys nothing and bids nothing
    let r = m.offer(
        "nft_contract".to_string(),
        "token1".to_string(),
        None,
        None,
        "user2".to_string(),
        0,
        0,
    );
    assert!(matches!(r, Err(MarketError::ZeroDeposit)));
}

#[test]
fn offer_respects_sale_window() {
    let mut m = Market::new("market_owner".to_string(), None);
    m.storage_deposit("user1".to_string(), STORAGE_PER_SALE);
    let mut conds = Vec::new();
    conds.push(SaleCondition { ft_token_id: "near".to_string(), price: 10000 });
    let args = ArgsKind::Sale(SaleArgs {
        sale_conditions: conds,
        token_type: None,
        start: Some(100),
        end: Some(200),
    });
    let r = m.nft_on_approve(
        "token1".to_string(),
        "user1".to_string(),
        1,
        args,
        "nft_contract".to_string(),
        "user1".to_string(),
        0,
    );
    assert!(matches!(r, Ok(None)));
    // before the window opens
    let r = m.offer(
        "nft_contract".to_string(),
        "token1".to_string(),
        None,
        None,
        "user2".to_string(),
        900,
        50,
    );
    assert!(matches!(r, Err(MarketError::SaleNotInProgress)));
    // inside the window
    let r = m.offer(
        "nft_contract".to_string(),
        "token1".to_string(),
        None,
        None,
        "user2".to_string(),
        900,
        150,
    );
    assert!(matches!(r, Ok(OfferOutcome::BidPlaced)));
    // at the end the window has closed
    let r = m.offer(
        "nft_contract".to_string(),
        "token1".to_string(),
        None,
        None,
        "user3".to_string(),
        950,
        200,
    );
    assert!(matches!(r, Err(MarketError::SaleNotInProgress)));
}

#[test]
fn accept_offer_takes_top_bid() {
    let mut m = setup_market_with_sale(10000);
    let r = m.add_bid(
        "nft_contract".to_string(),
        "token1".to_string(),
        900,
        "near".to_string(),
        "user2".to_string(),
        None,
        None,
    );
    assert_eq!(r, Ok(()));
    let r = m.add_bid(
        "nft_contract".to_string(),
        "token1".to_string(),
        950,
        "near".to_string(),
        "user3".to_string(),
        None,
        None,
    );
    assert_eq!(r, Ok(()));
    let req = m
        .accept_offer(
            "nft_contract".to_string(),
            "token1".to_string(),
            "near".to_string(),
            "user1".to_string(),
            0,
        )
        .expect("the top bid should be accepted");
    // the highest (last) bid wins, the listing leaves the store, and the
    // outbid 900 stays in the removed snapshot for phase 2 to refund
    assert_eq!(req.buyer_id, "user3".to_string());
    assert_eq!(req.price, 950);
    assert_eq!(m.market.sales.len(), 0);
    assert_eq!(req.sale.bids.len(), 1);
    assert_eq!(req.sale.bids[0].bids.len(), 1);
    assert_eq!(req.sale.bids[0].bids[0].owner_id, "user2".to_string());
}

#[test]
fn accept_offer_rejections() {
    let mut m = setup_market_with_sale(10000);
    let r = m.accept_offer(
        "nft_contract".to_string(),
        "token1".to_string(),
        "near".to_string(),
        "user1".to_string(),
        0,
    );
    assert_eq!(r.err(), Some(MarketError::NoBids));
    // a top bid outside its own window cannot be accepted
    let r = m.add_bid(
        "nft_contract".to_string(),
        "token1".to_string(),
        900,
        "near".to_string(),
        "user2".to_string(),
        Some(100),
        Some(200),
    );
    assert_eq!(r, Ok(()));
    let r = m.accept_offer(
        "nft_contract".to_string(),
        "token1".to_string(),
        "near".to_string(),
        "user1".to_string(),
        500,
    );
    assert_eq!(r.err(), Some(MarketError::BidOutOfLimits));
    // only the sale's owner may accept
    let r = m.accept_offer(
        "nft_contract".to_string(),
        "token1".to_string(),
        "near".to_string(),
        "user2".to_string(),
        150,
    );
    assert_eq!(r.err(), Some(MarketError::NotSaleOwner));
    let r = m.accept_offer(
        "nft_contract".to_string(),
        "token1".to_string(),
        "near".to_string(),
        "user1".to_string(),
        150,
    );
    assert!(r.is_ok());
}

#[test]
fn remove_sale_refunds_all_bids() {
    let mut m = setup_market_with_sale(10000);
    let r = m.add_bid(
        "nft_contract".to_string(),
        "token1".to_string(),
        900,
        "near".to_string(),
        "user2".to_string(),
        None,
        None,
    );
    assert_eq!(r, Ok(()));
    let r = m.add_bid(
        "nft_contract".to_string(),
        "token1".to_string(),
        950,
        "near".to_string(),
        "user3".to_string(),
        None,
        None,
    );
    assert_eq!(r, Ok(()));

    let r = m.remove_sale(
        "nft_contract".to_string(),
        "token1".to_string(),
        "user2".to_string(),
        1,
    );
    assert_eq!(r, Err(MarketError::NotSaleOwner));
    let r = m.remove_sale(
        "nft_contract".to_string(),
        "token1".to_string(),
        "user1".to_string(),
        0,
    );
    assert_eq!(r, Err(MarketError::OneYoctoRequired));
    let r = m.remove_sale(
        "nft_contract".to_string(),
        "token1".to_string(),
        "user1".to_string(),
        1,
    );
    assert_eq!(r, Ok(()));
    assert_eq!(m.market.sales.len(), 0);
    assert_eq!(m.queued_transfers.len(), 2);
    assert_eq!(m.queued_transfers[0].receiver_id, "user2".to_string());
    assert_eq!(m.queued_transfers[0].amount, 900);
    assert_eq!(m.queued_transfers[1].receiver_id, "user3".to_string());
    assert_eq!(m.queued_transfers[1].amount, 950);
}

#[test]
fn update_price_changes_one_condition() {
    let mut m = setup_market_with_sale(10000);
    let r = m.update_price(
        "nft_contract".to_string(),
        "token1".to_string(),
        "near".to_string(),
        20000,
        "user2".to_string(),
        1,
    );
    assert_eq!(r, Err(MarketError::NotSaleOwner));
    let r = m.update_price(
        "nft_contract".to_string(),
        "token1".to_string(),
        "near".to_string(),
        20000,
        "user1".to_string(),
        3,
    );
    assert_eq!(r, Err(MarketError::OneYoctoRequired));
    let r = m.update_price(
        "nft_contract".to_string(),
        "token1".to_string(),
        "wrapped_token".to_string(),
        20000,
        "user1".to_string(),
        1,
    );
    assert_eq!(r, Err(MarketError::TokenNotSupported));
    let r = m.update_price(
        "nft_contract".to_string(),
        "missing".to_string(),
        "near".to_string(),
        20000,
        "user1".to_string(),
        1,
    );
    assert_eq!(r, Err(MarketError::NoSale));
    let r = m.update_price(
        "nft_contract".to_string(),
        "token1".to_string(),
        "near".to_string(),
        20000,
        "user1".to_string(),
        1,
    );
    assert_eq!(r, Ok(()));
    assert_eq!(m.market.sales[0].sale_conditions.len(), 1);
    assert_eq!(m.market.sales[0].sale_conditions[0].price, 20000);
    // the new price is what an offer must now match exactly
    let r = m.offer(
        "nft_contract".to_string(),
        "token1".to_string(),
        None,
        None,
        "user2".to_string(),
        20000,
        0,
    );
    assert!(matches!(r, Ok(OfferOutcome::PurchaseStarted(_))));
}

#[test]
fn nft_on_approve_rejections() {
    let mut m = Market::new("market_owner".to_string(), None);
    // must arrive as a cross-contract call
    let r = m.nft_on_approve(
        "token1".to_string(),
        "user1".to_string(),
        1,
        sale_args(10000),
        "user1".to_string(),
        "user1".to_string(),
        0,
    );
    assert_eq!(r.err(), Some(MarketError::CrossContractCallOnly));
    // the declared owner must be the signer
    let r = m.nft_on_approve(
        "token1".to_string(),
        "user1".to_string(),
        1,
        sale_args(10000),
        "nft_contract".to_string(),
        "user2".to_string(),
        0,
    );
    assert_eq!(r.err(), Some(MarketError::OwnerNotSigner));
    // the signer has paid no storage yet
    let r = m.nft_on_approve(
        "token1".to_string(),
        "user1".to_string(),
        1,
        sale_args(10000),
        "nft_contract".to_string(),
        "user1".to_string(),
        0,
    );
    assert_eq!(r.err(), Some(MarketError::InsufficientStorage));
    m.storage_deposit("user1".to_string(), STORAGE_PER_SALE);
    // an asking price in an unsupported asset is rejected
    let mut conds = Vec::new();
    conds.push(SaleCondition { ft_token_id: "wrapped_token".to_string(), price: 5 });
    let bad = ArgsKind::Sale(SaleArgs {
        sale_conditions: conds,
        token_type: None,
        start: None,
        end: None,
    });
    let r = m.nft_on_approve(
        "token1".to_string(),
        "user1".to_string(),
        1,
        bad,
        "nft_contract".to_string(),
        "user1".to_string(),
        0,
    );
    assert_eq!(r.err(), Some(MarketError::TokenNotSupported));
    // a declared token type must be a substring of the token id
    let mut conds = Vec::new();
    conds.push(SaleCondition { ft_token_id: "near".to_string(), price: 10000 });
    let typed = ArgsKind::Sale(SaleArgs {
        sale_conditions: conds,
        token_type: Some("2:".to_string()),
        start: None,
        end: None,
    });
    let r = m.nft_on_approve(
        "1:10".to_string(),
        "user1".to_string(),
        1,
        typed,
        "nft_contract".to_string(),
        "user1".to_string(),
        0,
    );
    assert_eq!(r.err(), Some(MarketError::TokenTypeMismatch));
    // and with a matching token type the sale is stored
    let mut conds = Vec::new();
    conds.push(SaleCondition { ft_token_id: "near".to_string(), price: 10000 });
    let typed = ArgsKind::Sale(SaleArgs {
        sale_conditions: conds,
        token_type: Some("1:".to_string()),
        start: None,
        end: None,
    });
    let r = m.nft_on_approve(
        "1:10".to_string(),
        "user1".to_string(),
        1,
        typed,
        "nft_contract".to_string(),
        "user1".to_string(),
        0,
    );
    assert!(matches!(r, Ok(None)));
    assert_eq!(m.market.sales.len(), 1);
    assert_eq!(m.market.sales[0].owner_id, "user1".to_string());
    assert_eq!(m.get_supply_by_owner_id(&"user1".to_string()), 1);
}

#[test]
fn nft_on_approve_opens_auction() {
    let mut m = Market::new("market_owner".to_string(), None);
    m.storage_deposit("user1".to_string(), STORAGE_PER_SALE);
    let args = ArgsKind::Auction(AuctionArgs {
        token_type: None,
        minimal_step: 10,
        start_price: 100,
        start: 0,
        duration: 1000,
        buy_out_price: Some(500),
    });
    let r = m.nft_on_approve(
        "token1".to_string(),
        "user1".to_string(),
        7,
        args,
        "nft_contract".to_string(),
        "user1".to_string(),
        0,
    );
    let (id, auction) = match r {
        Ok(Some(pair)) => pair,
        other => panic!("expected an opened auction, got {:?}", other),
    };
    assert_eq!(id, 0);
    assert_eq!(auction.start_price, 100);
    assert_eq!(auction.minimal_step, 10);
    assert_eq!(auction.end, 1000);
    assert_eq!(auction.approval_id, 7);
    assert_eq!(m.market.next_auction_id, 1);
    assert_eq!(m.market.auctions.len(), 1);
}

#[test]
fn price_with_fees_adds_the_protocol_cut() {
    let m = Market::new("market_owner".to_string(), None);
    // 300 basis points of 10000 is exactly 300
    assert_eq!(m.price_with_fees(10000), 10300);
    // rounding is downward: 9999 * 300 / 10000 == 299
    assert_eq!(protocol_fee(9999), 299);
    assert_eq!(protocol_fee(0), 0);
    assert_eq!(protocol_fee(1), 0);
    assert_eq!(m.price_with_fees(1), 1);
}

#[test]
fn storage_ledger_accumulates() {
    let mut m = Market::new("market_owner".to_string(), None);
    assert_eq!(m.storage_amount(), STORAGE_PER_SALE);
    m.storage_deposit("user1".to_string(), STORAGE_PER_SALE / 2);
    m.storage_deposit("user1".to_string(), STORAGE_PER_SALE / 2);
    m.storage_deposit("user2".to_string(), 7);
    assert_eq!(m.market.storage_deposits.len(), 2);
    assert_eq!(m.market.storage_deposits[0].account_id, "user1".to_string());
    assert_eq!(m.market.storage_deposits[0].amount, STORAGE_PER_SALE);
    assert_eq!(m.market.storage_deposits[1].amount, 7);
    // one full slot paid: the next listing fits, a second does not
    let r = m.nft_on_approve(
        "token1".to_string(),
        "user1".to_string(),
        1,
        sale_args(10000),
        "nft_contract".to_string(),
        "user1".to_string(),
        0,
    );
    assert!(matches!(r, Ok(None)));
    let r = m.nft_on_approve(
        "token2".to_string(),
        "user1".to_string(),
        2,
        sale_args(10000),
        "nft_contract".to_string(),
        "user1".to_string(),
        0,
    );
    assert_eq!(r.err(), Some(MarketError::InsufficientStorage));
}

#[test]
fn reapproval_replaces_listing_and_refunds_its_bids() {
    let mut m = setup_market_with_sale(10000);
    let r = m.add_bid(
        "nft_contract".to_string(),
        "token1".to_string(),
        900,
        "near".to_string(),
        "user2".to_string(),
        None,
        None,
    );
    assert_eq!(r, Ok(()));
    // a second approval for the same token replaces the listing; the old
    // record's outstanding bid is not silently discarded but refunded
    m.storage_deposit("user1".to_string(), STORAGE_PER_SALE);
    let r = m.nft_on_approve(
        "token1".to_string(),
        "user1".to_string(),
        2,
        sale_args(20000),
        "nft_contract".to_string(),
        "user1".to_string(),
        50,
    );
    assert!(matches!(r, Ok(None)));
    assert_eq!(m.market.sales.len(), 1);
    assert_eq!(m.market.sales[0].approval_id, 2);
    assert_eq!(m.market.sales[0].sale_conditions[0].price, 20000);
    assert_eq!(m.market.sales[0].bids.len(), 0);
    assert_eq!(m.queued_transfers.len(), 1);
    assert_eq!(m.queued_transfers[0].receiver_id, "user2".to_string());
    assert_eq!(m.queued_transfers[0].amount, 900);
}

#[test]
fn zero_ladder_bound_falls_back_to_default() {
    let m = Market::new("market_owner".to_string(), Some(0));
    assert_eq!(
        m.market.bid_history_length,
        nft_bid_market::BID_HISTORY_LENGTH_DEFAULT,
    );
    let m = Market::new("market_owner".to_string(), Some(3));
    assert_eq!(m.market.bid_history_length, 3);
    let m = Market::new("market_owner".to_string(), None);
    assert_eq!(
        m.market.bid_history_length,
        nft_bid_market::BID_HISTORY_LENGTH_DEFAULT,
    );
}

#[test]
fn sale_extend_pushes_end_out() {
    let mut m = setup_market_with_sale(10000);
    let mut sale = m.market.sales.remove(0);
    assert!(sale.end.is_none());
    // without an end there is nothing to extend
    assert!(!sale.extend(100));
    sale.end = Some(500);
    assert!(sale.extend(100));
    assert_eq!(sale.end, Some(600));
}

#[test]
fn nft_on_series_approve_stores_series() {
    let mut m = Market::new("market_owner".to_string(), None);
    m.storage_deposit("user1".to_string(), STORAGE_PER_SALE);
    let mut conds = Vec::new();
    conds.push(SaleCondition { ft_token_id: "near".to_string(), price: 500 });
    let series = TokenSeriesSale {
        owner_id: "user1".to_string(),
        series_id: "1".to_string(),
        sale_conditions: conds,
        copies: 10,
    };
    let r = m.nft_on_series_approve(
        series,
        "nft_contract".to_string(),
        "user1".to_string(),
        42,
    );
    assert_eq!(r, Ok(()));
    assert_eq!(m.market.series_sales.len(), 1);
    assert_eq!(m.market.series_sales[0].series_id, "1".to_string());
    assert_eq!(m.market.series_sales[0].created_at, 42);
    assert_eq!(m.market.series_sales[0].copies, 10);
    assert_eq!(m.get_supply_by_owner_id(&"user1".to_string()), 1);
}
