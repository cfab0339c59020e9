use nft_bid_market::market_core::{ArgsKind, SaleArgs};
use nft_bid_market::sale::{Payout, PayoutEntry, SaleCondition};
use nft_bid_market::{Market, MarketError, STORAGE_PER_SALE};

fn setup_market_with_sale(price: u128) -> Market {
    let mut m = Market::new("market_owner".to_string(), None);
    m.storage_deposit("user1".to_string(), STORAGE_PER_SALE);
    let mut conds = Vec::new();
    conds.push(SaleCondition { ft_token_id: "near".to_string(), price });
    let args = ArgsKind::Sale(SaleArgs {
        sale_conditions: conds,
        token_type: None,
        start: None,
        end: None,
    });
    let r = m.nft_on_approve(
        "token1".to_string(),
        "user1".to_string(),
        1,
        args,
        "nft_contract".to_string(),
        "user1".to_string(),
        0,
    );
    assert!(matches!(r, Ok(None)));
    m
}

fn payout(entries: &[(&str, u128)]) -> Payout {
    let mut v = Vec::new();
    for (who, amount) in entries {
        v.push(PayoutEntry {
            account_id: who.to_string(),
            amount: *amount,
        });
    }
    Payout { payout: v }
}

#[test]
fn valid_payout_disburses_royalties_and_fee() {
    let mut m = setup_market_with_sale(10000);
    let req = m
        .process_purchase(
            "nft_contract".to_string(),
            "token1".to_string(),
            "near".to_string(),
            10000,
            "user2".to_string(),
        )
        .unwrap();
    // the token contract splits the price: 1000 royalty, 9000 to the seller
    let r = m.resolve_purchase(
        req.ft_token_id,
        req.buyer_id,
        req.sale,
        req.price,
        Some(payout(&[("royalty_holder", 1000), ("user1", 9000)])),
    );
    // native sale: the full price is reported spent here
    assert_eq!(r, Ok(10000));
    // one transfer per non-seller recipient, then the seller's share less
    // the 3% protocol fee
    assert_eq!(m.queued_transfers.len(), 2);
    assert_eq!(m.queued_transfers[0].receiver_id, "royalty_holder".to_string());
    assert_eq!(m.queued_transfers[0].amount, 1000);
    assert_eq!(m.queued_transfers[1].receiver_id, "user1".to_string());
    assert_eq!(m.queued_transfers[1].amount, 9000 - 300);
}

#[test]
fn valid_payout_refunds_outstanding_bids_first() {
    let mut m = setup_market_with_sale(10000);
    let r = m.add_bid(
        "nft_contract".to_string(),
        "token1".to_string(),
        900,
        "near".to_string(),
        "user3".to_string(),
        None,
        None,
    );
    assert_eq!(r, Ok(()));
    let req = m
        .process_purchase(
            "nft_contract".to_string(),
            "token1".to_string(),
            "near".to_string(),
            10000,
            "user2".to_string(),
        )
        .unwrap();
    let r = m.resolve_purchase(
        req.ft_token_id,
        req.buyer_id,
        req.sale,
        req.price,
        Some(payout(&[("user1", 10000)])),
    );
    assert_eq!(r, Ok(10000));
    // the outstanding 900 bid comes back before any payout transfer
    assert_eq!(m.queued_transfers.len(), 2);
    assert_eq!(m.queued_transfers[0].receiver_id, "user3".to_string());
    assert_eq!(m.queued_transfers[0].amount, 900);
    assert_eq!(m.queued_transfers[1].receiver_id, "user1".to_string());
    assert_eq!(m.queued_transfers[1].amount, 10000 - 300);
}

#[test]
fn failed_transfer_refunds_native_buyer() {
    let mut m = setup_market_with_sale(10000);
    let r = m.add_bid(
        "nft_contract".to_string(),
        "token1".to_string(),
        900,
        "near".to_string(),
        "user3".to_string(),
        None,
        None,
    );
    assert_eq!(r, Ok(()));
    let req = m
        .process_purchase(
            "nft_contract".to_string(),
            "token1".to_string(),
            "near".to_string(),
            10000,
            "user2".to_string(),
        )
        .unwrap();
    // the transfer call failed: no payout came back. The removed listing's
    // outstanding bids are refunded regardless of the outcome — nothing
    // else ever could — and then the buyer is made whole.
    let r = m.resolve_purchase(req.ft_token_id, req.buyer_id, req.sale, req.price, None);
    assert_eq!(r, Ok(10000));
    assert_eq!(m.queued_transfers.len(), 2);
    assert_eq!(m.queued_transfers[0].receiver_id, "user3".to_string());
    assert_eq!(m.queued_transfers[0].amount, 900);
    assert_eq!(m.queued_transfers[1].receiver_id, "user2".to_string());
    assert_eq!(m.queued_transfers[1].amount, 10000);
    assert_eq!(m.queued_transfers[1].ft_token_id, "near".to_string());
}

#[test]
fn rejected_top_bid_is_refunded_on_failed_settlement() {
    let mut m = setup_market_with_sale(10000);
    let r = m.add_bid(
        "nft_contract".to_string(),
        "token1".to_string(),
        900,
        "near".to_string(),
        "user3".to_string(),
        None,
        None,
    );
    assert_eq!(r, Ok(()));
    let r = m.add_bid(
        "nft_contract".to_string(),
        "token1".to_string(),
        950,
        "near".to_string(),
        "user4".to_string(),
        None,
        None,
    );
    assert_eq!(r, Ok(()));
    let req = m
        .accept_offer(
            "nft_contract".to_string(),
            "token1".to_string(),
            "near".to_string(),
            "user1".to_string(),
            0,
        )
        .unwrap();
    assert_eq!(req.buyer_id, "user4".to_string());
    // the token contract rejects the transfer: the non-winning 900 travels
    // with the removed snapshot and still comes back, then the accepted
    // bidder is made whole
    let r = m.resolve_purchase(req.ft_token_id, req.buyer_id, req.sale, req.price, None);
    assert_eq!(r, Ok(950));
    assert_eq!(m.queued_transfers.len(), 2);
    assert_eq!(m.queued_transfers[0].receiver_id, "user3".to_string());
    assert_eq!(m.queued_transfers[0].amount, 900);
    assert_eq!(m.queued_transfers[1].receiver_id, "user4".to_string());
    assert_eq!(m.queued_transfers[1].amount, 950);
}

#[test]
fn malformed_payouts_fall_back_to_the_buyer() {
    // empty payout
    let mut m = setup_market_with_sale(10000);
    let req = m
        .process_purchase(
            "nft_contract".to_string(),
            "token1".to_string(),
            "near".to_string(),
            10000,
            "user2".to_string(),
        )
        .unwrap();
    let r = m.resolve_purchase(
        req.ft_token_id,
        req.buyer_id,
        req.sale,
        req.price,
        Some(payout(&[])),
    );
    assert_eq!(r, Ok(10000));
    assert_eq!(m.queued_transfers.len(), 1);
    assert_eq!(m.queued_transfers[0].receiver_id, "user2".to_string());

    // more recipients than the bounded fan-out of ten
    let mut m = setup_market_with_sale(10000);
    let req = m
        .process_purchase(
            "nft_contract".to_string(),
            "token1".to_string(),
            "near".to_string(),
            10000,
            "user2".to_string(),
        )
        .unwrap();
    let r = m.resolve_purchase(
        req.ft_token_id,
        req.buyer_id,
        req.sale,
        req.price,
        Some(payout(&[
            ("r0", 900),
            ("r1", 900),
            ("r2", 900),
            ("r3", 900),
            ("r4", 900),
            ("r5", 900),
            ("r6", 900),
            ("r7", 900),
            ("r8", 900),
            ("r9", 900),
            ("user1", 1000),
        ])),
    );
    assert_eq!(r, Ok(10000));
    assert_eq!(m.queued_transfers.len(), 1);
    assert_eq!(m.queued_transfers[0].receiver_id, "user2".to_string());

    // amounts exceeding the price
    let mut m = setup_market_with_sale(10000);
    let req = m
        .process_purchase(
            "nft_contract".to_string(),
            "token1".to_string(),
            "near".to_string(),
            10000,
            "user2".to_string(),
        )
        .unwrap();
    let r = m.resolve_purchase(
        req.ft_token_id,
        req.buyer_id,
        req.sale,
        req.price,
        Some(payout(&[("user1", 10001)])),
    );
    assert_eq!(r, Ok(10000));
    assert_eq!(m.queued_transfers.len(), 1);

    // a remainder of two units is out of rounding tolerance
    let mut m = setup_market_with_sale(10000);
    let req = m
        .process_purchase(
            "nft_contract".to_string(),
            "token1".to_string(),
            "near".to_string(),
            10000,
            "user2".to_string(),
        )
        .unwrap();
    let r = m.resolve_purchase(
        req.ft_token_id,
        req.buyer_id,
        req.sale,
        req.price,
        Some(payout(&[("user1", 9998)])),
    );
    assert_eq!(r, Ok(10000));
    assert_eq!(m.queued_transfers.len(), 1);
    assert_eq!(m.queued_transfers[0].receiver_id, "user2".to_string());

    // a remainder of one unit is still within tolerance
    let mut m = setup_market_with_sale(10000);
    let req = m
        .process_purchase(
            "nft_contract".to_string(),
            "token1".to_string(),
            "near".to_string(),
            10000,
            "user2".to_string(),
        )
        .unwrap();
    let r = m.resolve_purchase(
        req.ft_token_id,
        req.buyer_id,
        req.sale,
        req.price,
        Some(payout(&[("user1", 9999)])),
    );
    assert_eq!(r, Ok(10000));
    assert_eq!(m.queued_transfers.len(), 1);
    assert_eq!(m.queued_transfers[0].receiver_id, "user1".to_string());
    assert_eq!(m.queued_transfers[0].amount, 9999 - 300);
}

#[test]
fn fungible_asset_failure_leaves_funds_for_the_asset_contract() {
    let mut m = setup_market_with_sale(10000);
    m.market.ft_token_ids.push("wrapped_token".to_string());
    let r = m.add_bid(
        "nft_contract".to_string(),
        "token1".to_string(),
        900,
        "near".to_string(),
        "user3".to_string(),
        None,
        None,
    );
    assert_eq!(r, Ok(()));
    let req = m
        .process_purchase(
            "nft_contract".to_string(),
            "token1".to_string(),
            "wrapped_token".to_string(),
            10000,
            "user2".to_string(),
        )
        .unwrap();
    let r = m.resolve_purchase(req.ft_token_id, req.buyer_id, req.sale, req.price, None);
    // the removed listing's outstanding bids still come back, but the
    // price itself is not queued here: the asset contract's own refund
    // path takes over, told so by the returned full price
    assert_eq!(r, Ok(10000));
    assert_eq!(m.queued_transfers.len(), 1);
    assert_eq!(m.queued_transfers[0].receiver_id, "user3".to_string());
    assert_eq!(m.queued_transfers[0].amount, 900);
}

#[test]
fn fungible_asset_success_forwards_everything() {
    let mut m = setup_market_with_sale(10000);
    m.market.ft_token_ids.push("wrapped_token".to_string());
    let req = m
        .process_purchase(
            "nft_contract".to_string(),
            "token1".to_string(),
            "wrapped_token".to_string(),
            10000,
            "user2".to_string(),
        )
        .unwrap();
    let r = m.resolve_purchase(
        req.ft_token_id,
        req.buyer_id,
        req.sale,
        req.price,
        Some(payout(&[("user1", 10000)])),
    );
    // all value was forwarded on: the unspent remainder is zero
    assert_eq!(r, Ok(0));
    assert_eq!(m.queued_transfers.len(), 1);
    assert_eq!(m.queued_transfers[0].receiver_id, "user1".to_string());
    assert_eq!(m.queued_transfers[0].amount, 10000 - 300);
    assert_eq!(m.queued_transfers[0].ft_token_id, "wrapped_token".to_string());
}

#[test]
fn payout_without_the_seller_is_fatal() {
    let mut m = setup_market_with_sale(10000);
    let req = m
        .process_purchase(
            "nft_contract".to_string(),
            "token1".to_string(),
            "near".to_string(),
            10000,
            "user2".to_string(),
        )
        .unwrap();
    let r = m.resolve_purchase(
        req.ft_token_id,
        req.buyer_id,
        req.sale,
        req.price,
        Some(payout(&[("somebody_else", 10000)])),
    );
    assert_eq!(r, Err(MarketError::PayoutMissingOwner));
    assert_eq!(m.queued_transfers.len(), 0);
}

#[test]
fn seller_share_must_cover_the_fee() {
    let mut m = setup_market_with_sale(10000);
    let req = m
        .process_purchase(
            "nft_contract".to_string(),
            "token1".to_string(),
            "near".to_string(),
            10000,
            "user2".to_string(),
        )
        .unwrap();
    // the fee on 10000 is 300, but the seller's share is only 200
    let r = m.resolve_purchase(
        req.ft_token_id,
        req.buyer_id,
        req.sale,
        req.price,
        Some(payout(&[("royalty_holder", 9800), ("user1", 200)])),
    );
    assert_eq!(r, Err(MarketError::ProtocolFeeExceedsOwnerPayout));
    assert_eq!(m.queued_transfers.len(), 0);
}

#[test]
fn resolve_token_buy_disburses_or_refunds() {
    let mut m = Market::new("market_owner".to_string(), None);
    // a good payout pays every recipient natively
    let r = m.resolve_token_buy(
        "buyer".to_string(),
        10000,
        10000,
        Some(payout(&[("a", 4000), ("b", 6000)])),
    );
    assert_eq!(r, 10000);
    assert_eq!(m.queued_transfers.len(), 2);
    assert_eq!(m.queued_transfers[0].receiver_id, "a".to_string());
    assert_eq!(m.queued_transfers[0].amount, 4000);
    assert_eq!(m.queued_transfers[1].receiver_id, "b".to_string());
    assert_eq!(m.queued_transfers[1].amount, 6000);

    // an unreconcilable payout refunds the buyer's deposit instead
    let mut m = Market::new("market_owner".to_string(), None);
    let r = m.resolve_token_buy(
        "buyer".to_string(),
        10300,
        10000,
        Some(payout(&[("a", 4000), ("b", 6002)])),
    );
    assert_eq!(r, 10000);
    assert_eq!(m.queued_transfers.len(), 1);
    assert_eq!(m.queued_transfers[0].receiver_id, "buyer".to_string());
    assert_eq!(m.queued_transfers[0].amount, 10300);

    // so does a failed call
    let mut m = Market::new("market_owner".to_string(), None);
    let r = m.resolve_token_buy("buyer".to_string(), 10300, 10000, None);
    assert_eq!(r, 10000);
    assert_eq!(m.queued_transfers.len(), 1);
    assert_eq!(m.queued_transfers[0].receiver_id, "buyer".to_string());

    // and so does a payout wider than the bounded fan-out of ten
    let mut m = Market::new("market_owner".to_string(), None);
    let r = m.resolve_token_buy(
        "buyer".to_string(),
        11000,
        11000,
        Some(payout(&[
            ("r0", 1000),
            ("r1", 1000),
            ("r2", 1000),
            ("r3", 1000),
            ("r4", 1000),
            ("r5", 1000),
            ("r6", 1000),
            ("r7", 1000),
            ("r8", 1000),
            ("r9", 1000),
            ("r10", 1000),
        ])),
    );
    assert_eq!(r, 11000);
    assert_eq!(m.queued_transfers.len(), 1);
    assert_eq!(m.queued_transfers[0].receiver_id, "buyer".to_string());
    assert_eq!(m.queued_transfers[0].amount, 11000);
}

#[test]
fn accepted_bid_settles_at_bid_price() {
    let mut m = setup_market_with_sale(10000);
    let r = m.add_bid(
        "nft_contract".to_string(),
        "token1".to_string(),
        900,
        "near".to_string(),
        "user2".to_string(),
        None,
        None,
    );
    assert_eq!(r, Ok(()));
    let req = m
        .accept_offer(
            "nft_contract".to_string(),
            "token1".to_string(),
            "near".to_string(),
            "user1".to_string(),
            0,
        )
        .unwrap();
    let r = m.resolve_purchase(
        req.ft_token_id,
        req.buyer_id,
        req.sale,
        req.price,
        Some(payout(&[("user1", 900)])),
    );
    assert_eq!(r, Ok(900));
    // the fee on 900 is floor(900 * 300 / 10000) == 27
    assert_eq!(m.queued_transfers.len(), 1);
    assert_eq!(m.queued_transfers[0].receiver_id, "user1".to_string());
    assert_eq!(m.queued_transfers[0].amount, 900 - 27);
}
