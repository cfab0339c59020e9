//! Settlement core of an on-chain NFT marketplace: listings ("sales") with
//! bounded, strictly ascending bid ladders, time-boxed auctions with
//! anti-sniping extension and buy-out, and a two-phase asynchronous
//! purchase-settlement protocol with royalty payout and refund-on-failure.
//!
//! The host environment (caller identity, attached deposit, current time) is
//! passed in as explicit arguments, and every outbound value transfer is
//! recorded in a queue of best-effort transfers instead of being performed
//! here, so the whole state machine is plain data that can be verified.

use vstd::prelude::*;

pub mod auction;
pub mod auction_views;
pub mod bid;
pub mod laws;
pub mod market_core;
pub mod sale;

use crate::sale::{
    has_storage_deposit, lemma_storage_deposit_index, market_sales_wf, storage_balance_of,
    storage_deposit_index, MarketSales, StorageDeposit,
};

verus! {

/// Account identifier of the host chain, kept as plain text.
pub type AccountId = String;

/// Token identifier within one NFT contract.
pub type TokenId = String;

/// Identifier of a payment asset: an FT contract account, or "near" for the
/// native currency.
pub type FungibleTokenId = AccountId;

/// Identifier of a token series within one NFT contract.
pub type TokenSeriesId = String;

/// Protocol fee in basis points, taken out of the seller's payout share.
pub const PROTOCOL_FEE: u128 = 300;

/// Denominator for basis-point fee calculations.
pub const FEE_DENOMINATOR: u128 = 10_000;

/// Default bound on the length of one bid ladder.
pub const BID_HISTORY_LENGTH_DEFAULT: u8 = 10;

/// Storage deposit required per listing slot, in indivisible currency units.
pub const STORAGE_PER_SALE: u128 = 10_000_000_000_000_000_000_000;

/// Anti-sniping grace period for auctions, in nanoseconds (15 minutes): a bid
/// landing closer than this to the end pushes the end out to this distance.
pub const EXTENSION_DURATION: u64 = 900_000_000_000;

/// Everything a market entry point can reject a call for. The host is
/// expected to roll the whole call back when one of these is returned.
#[derive(Clone, Copy, Debug, PartialEq, Eq, Structural)]
pub enum MarketError {
    /// The call must attach exactly one indivisible currency unit.
    OneYoctoRequired,
    /// Only the recorded owner of the bid may do this.
    NotBidOwner,
    /// No listing under this contract and token id.
    NoSale,
    /// The listing has no bid ladder for this payment asset.
    NoToken,
    /// No bid with this owner and price in the ladder.
    NoSuchBid,
    /// The bid's end time has not elapsed yet.
    BidNotEnded,
    /// The bid has no end time, so it cannot be force-cancelled.
    BidHasNoEnd,
    /// The payment asset is not in the market's supported set.
    TokenNotSupported,
    /// A new bid must exceed the current highest bid for the asset.
    BidTooLow,
    /// The sale is outside its start/end window.
    SaleNotInProgress,
    /// A seller cannot bid on their own sale.
    CannotBidOnOwnSale,
    /// The listing has no asking price in the native currency.
    NotForSaleInNear,
    /// The attached deposit must be greater than zero.
    ZeroDeposit,
    /// Only the recorded owner of the sale may do this.
    NotSaleOwner,
    /// The listing has no bids for this payment asset.
    NoBids,
    /// The top bid is outside its own validity window.
    BidOutOfLimits,
    /// The approval entry point must be a cross-contract call.
    CrossContractCallOnly,
    /// The declared owner must be the transaction signer.
    OwnerNotSigner,
    /// The signer has not pre-paid storage for one more listing slot.
    InsufficientStorage,
    /// A declared token type must be a substring of the token id.
    TokenTypeMismatch,
    /// No auction under this id.
    AuctionNotFound,
    /// The auction is not currently in progress.
    AuctionNotInProgress,
    /// An auction bid must reach the minimal next bid.
    BidBelowMinimalNextBid,
    /// The auction cannot be finalized before its end.
    AuctionNotEnded,
    /// Fatal: a validated payout does not contain the seller.
    PayoutMissingOwner,
    /// Fatal: the seller's payout share does not cover the protocol fee.
    ProtocolFeeExceedsOwnerPayout,
}

/// One queued best-effort transfer: the contract's balance (or the named FT
/// contract) owes `amount` to `receiver_id`. These are handed to the host to
/// perform asynchronously; their outcome is not observed here.
#[derive(Clone, Debug)]
pub struct QueuedTransfer {
    pub receiver_id: AccountId,
    pub amount: u128,
    pub ft_token_id: FungibleTokenId,
}

/// The market contract: its durable state, and the queue of best-effort
/// outbound transfers it has decided on but not yet handed to the host.
#[derive(Debug)]
pub struct Market {
    pub market: MarketSales,
    pub queued_transfers: Vec<QueuedTransfer>,
}

impl Market {
    /// Every store and ledger of the market is well formed.
    pub open spec fn wf(self) -> bool {
        market_sales_wf(self.market)
    }

    /// A fresh market: empty stores, the native currency as the one
    /// supported payment asset, and the given ladder bound; an absent
    /// bound, or a zero one (under which no ladder could hold any bid),
    /// falls back to the default.
    pub fn new(owner_id: AccountId, bid_history_length: Option<u8>) -> (r: Market)
        ensures
            r.wf(),
            r.market.owner_id == owner_id,
            r.market.sales@.len() == 0,
            r.market.series_sales@.len() == 0,
            r.market.auctions@.len() == 0,
            r.market.next_auction_id == 0,
            r.market.storage_deposits@.len() == 0,
            r.market.ft_token_ids@.len() == 1 && r.market.ft_token_ids@[0]@ == "near"@,
            r.market.bid_history_length == (match bid_history_length {
                Some(n) => if n >= 1 {
                    n
                } else {
                    BID_HISTORY_LENGTH_DEFAULT
                },
                None => BID_HISTORY_LENGTH_DEFAULT,
            }),
            r.queued_transfers@.len() == 0,
    {
        let mut ft_token_ids: Vec<FungibleTokenId> = Vec::new();
        ft_token_ids.push(String::from_str("near"));
        Market {
            market: MarketSales {
                owner_id,
                sales: Vec::new(),
                series_sales: Vec::new(),
                ft_token_ids,
                storage_deposits: Vec::new(),
                bid_history_length: match bid_history_length {
                    Some(n) => if n >= 1 {
                        n
                    } else {
                        BID_HISTORY_LENGTH_DEFAULT
                    },
                    None => BID_HISTORY_LENGTH_DEFAULT,
                },
                auctions: Vec::new(),
                next_auction_id: 0,
            },
            queued_transfers: Vec::new(),
        }
    }

    /// The storage deposit required per listing slot.
    pub fn storage_amount(&self) -> (r: u128)
        ensures
            r == STORAGE_PER_SALE,
    {
        STORAGE_PER_SALE
    }

    /// Credit an attached deposit to `account_id`'s storage balance.
    pub fn storage_deposit(&mut self, account_id: AccountId, attached_deposit: u128)
        requires
            old(self).wf(),
            storage_balance_of(old(self).market.storage_deposits@, account_id@)
                + attached_deposit <= u128::MAX,
        ensures
            final(self).wf(),
            final(self).market.sales == old(self).market.sales,
            final(self).market.series_sales == old(self).market.series_sales,
            final(self).market.auctions == old(self).market.auctions,
            final(self).market.next_auction_id == old(self).market.next_auction_id,
            final(self).market.ft_token_ids == old(self).market.ft_token_ids,
            final(self).market.bid_history_length == old(self).market.bid_history_length,
            final(self).market.owner_id == old(self).market.owner_id,
            final(self).queued_transfers == old(self).queued_transfers,
            storage_balance_of(final(self).market.storage_deposits@, account_id@)
                == storage_balance_of(old(self).market.storage_deposits@, account_id@)
                    + attached_deposit,
            forall|a: Seq<char>|
                a != account_id@ ==> #[trigger] storage_balance_of(
                    final(self).market.storage_deposits@,
                    a,
                ) == storage_balance_of(old(self).market.storage_deposits@, a),
    {
        let ghost d0 = self.market.storage_deposits@;
        let found = crate::sale::find_storage_deposit(&self.market.storage_deposits, &account_id);
        match found {
            Some(i) => {
                proof {
                    lemma_storage_deposit_index(d0, account_id@, i as int);
                }
                let prior = self.market.storage_deposits[i].amount;
                self.market.storage_deposits[i] = StorageDeposit {
                    account_id,
                    amount: prior + attached_deposit,
                };
                proof {
                    let d1 = self.market.storage_deposits@;
                    assert(forall|k: int|
                        0 <= k < d1.len() ==> #[trigger] d1[k].account_id@ == d0[k].account_id@);
                    lemma_storage_deposit_index(d1, account_id@, i as int);
                    assert forall|a: Seq<char>| a != account_id@ implies storage_balance_of(
                        d1,
                        a,
                    ) == storage_balance_of(d0, a) by {
                        if has_storage_deposit(d0, a) {
                            let k = storage_deposit_index(d0, a);
                            lemma_storage_deposit_index(d0, a, k);
                            lemma_storage_deposit_index(d1, a, k);
                        } else if has_storage_deposit(d1, a) {
                            let k = storage_deposit_index(d1, a);
                            assert(d0[k].account_id@ == a);
                        }
                    }
                }
            },
            None => {
                self.market.storage_deposits.push(StorageDeposit {
                    account_id,
                    amount: attached_deposit,
                });
                proof {
                    let d1 = self.market.storage_deposits@;
                    lemma_storage_deposit_index(d1, account_id@, d0.len() as int);
                    assert forall|a: Seq<char>| a != account_id@ implies storage_balance_of(
                        d1,
                        a,
                    ) == storage_balance_of(d0, a) by {
                        if has_storage_deposit(d0, a) {
                            let k = storage_deposit_index(d0, a);
                            lemma_storage_deposit_index(d0, a, k);
                            lemma_storage_deposit_index(d1, a, k);
                        } else if has_storage_deposit(d1, a) {
                            let k = storage_deposit_index(d1, a);
                            assert(0 <= k < d1.len() && d1[k].account_id@ == a);
                            assert(k < d0.len());
                        }
                    }
                }
            },
        }
    }
}

} // verus!
