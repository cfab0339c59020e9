//! Read-only views over the auction table.

use vstd::prelude::*;

use crate::auction::{
    auction_at, auction_index, clone_auction, clone_opt_string, find_auction, has_auction,
    lemma_auction_index, spec_json_from_auction, AuctionJson,
};
use crate::bid::clone_bid;
use crate::{AccountId, Market, MarketError};

verus! {

impl Market {
    /// Who currently holds the highest bid of an auction, if anyone.
    pub fn get_current_buyer(&self, auction_id: u128) -> (r: Result<
        Option<AccountId>,
        MarketError,
    >)
        requires
            self.wf(),
        ensures
            ({
                let found = has_auction(self.market.auctions@, auction_id);
                let a0 = auction_at(self.market.auctions@, auction_id);
                &&& (r is Err <==> !found)
                &&& (r is Err ==> r == Err::<Option<AccountId>, MarketError>(
                    MarketError::AuctionNotFound,
                ))
                &&& (r matches Ok(o) ==> (match a0.bid {
                    Some(b) => o == Some(b.owner_id),
                    None => o is None,
                }))
            }),
    {
        let ai = match find_auction(&self.market.auctions, auction_id) {
            None => { return Err(MarketError::AuctionNotFound); },
            Some(ai) => ai,
        };
        proof {
            lemma_auction_index(self.market.auctions@, auction_id, ai as int);
        }
        match &self.market.auctions[ai].auction.bid {
            Some(b) => Ok(Some(b.owner_id.clone())),
            None => Ok(None),
        }
    }

    /// Whether the auction's time box is open: `start <= now < end`.
    pub fn check_auction_in_progress(&self, auction_id: u128, now: u64) -> (r: Result<
        bool,
        MarketError,
    >)
        requires
            self.wf(),
        ensures
            ({
                let found = has_auction(self.market.auctions@, auction_id);
                let a0 = auction_at(self.market.auctions@, auction_id);
                &&& (r is Err <==> !found)
                &&& (r is Err ==> r == Err::<bool, MarketError>(MarketError::AuctionNotFound))
                &&& (r matches Ok(b) ==> b == a0.spec_in_progress(now))
            }),
    {
        let ai = match find_auction(&self.market.auctions, auction_id) {
            None => { return Err(MarketError::AuctionNotFound); },
            Some(ai) => ai,
        };
        proof {
            lemma_auction_index(self.market.auctions@, auction_id, ai as int);
        }
        let a = &self.market.auctions[ai].auction;
        Ok(a.start <= now && now < a.end)
    }

    /// The client view of one auction.
    pub fn get_auction_json(&self, auction_id: u128) -> (r: Result<AuctionJson, MarketError>)
        requires
            self.wf(),
        ensures
            ({
                let found = has_auction(self.market.auctions@, auction_id);
                let a0 = auction_at(self.market.auctions@, auction_id);
                &&& (r is Err <==> !found)
                &&& (r is Err ==> r == Err::<AuctionJson, MarketError>(
                    MarketError::AuctionNotFound,
                ))
                &&& (r matches Ok(j) ==> j == spec_json_from_auction(auction_id, a0))
            }),
    {
        let ai = match find_auction(&self.market.auctions, auction_id) {
            None => { return Err(MarketError::AuctionNotFound); },
            Some(ai) => ai,
        };
        proof {
            lemma_auction_index(self.market.auctions@, auction_id, ai as int);
        }
        Ok(self.json_from_auction(ai))
    }

    /// The least amount the next bid on this auction must attach.
    pub fn get_minimal_next_bid(&self, auction_id: u128) -> (r: Result<u128, MarketError>)
        requires
            self.wf(),
            has_auction(self.market.auctions@, auction_id) ==> auction_at(
                self.market.auctions@,
                auction_id,
            ).spec_minimal_next_bid() <= u128::MAX,
        ensures
            ({
                let found = has_auction(self.market.auctions@, auction_id);
                let a0 = auction_at(self.market.auctions@, auction_id);
                &&& (r is Err <==> !found)
                &&& (r is Err ==> r == Err::<u128, MarketError>(MarketError::AuctionNotFound))
                &&& (r matches Ok(v) ==> v == a0.spec_minimal_next_bid())
            }),
    {
        let ai = match find_auction(&self.market.auctions, auction_id) {
            None => { return Err(MarketError::AuctionNotFound); },
            Some(ai) => ai,
        };
        proof {
            lemma_auction_index(self.market.auctions@, auction_id, ai as int);
        }
        let a = &self.market.auctions[ai].auction;
        match &a.bid {
            Some(b) => Ok(b.price + a.minimal_step),
            None => Ok(a.start_price),
        }
    }

    /// The price of the current highest bid, if any.
    pub fn get_current_bid(&self, auction_id: u128) -> (r: Result<Option<u128>, MarketError>)
        requires
            self.wf(),
        ensures
            ({
                let found = has_auction(self.market.auctions@, auction_id);
                let a0 = auction_at(self.market.auctions@, auction_id);
                &&& (r is Err <==> !found)
                &&& (r is Err ==> r == Err::<Option<u128>, MarketError>(
                    MarketError::AuctionNotFound,
                ))
                &&& (r matches Ok(o) ==> (match a0.bid {
                    Some(b) => o == Some(b.price),
                    None => o is None,
                }))
            }),
    {
        let ai = match find_auction(&self.market.auctions, auction_id) {
            None => { return Err(MarketError::AuctionNotFound); },
            Some(ai) => ai,
        };
        proof {
            lemma_auction_index(self.market.auctions@, auction_id, ai as int);
        }
        match &self.market.auctions[ai].auction.bid {
            Some(b) => Ok(Some(b.price)),
            None => Ok(None),
        }
    }

    /// A page of the auction table, in storage order: up to `limit`
    /// entries starting at position `from_index`.
    pub fn get_auctions(&self, from_index: Option<u128>, limit: Option<u64>) -> (r: Vec<
        AuctionJson,
    >)
        requires
            self.wf(),
        ensures
            ({
                let auctions = self.market.auctions@;
                let start = (match from_index {
                    Some(v) => v,
                    None => 0,
                }) as int;
                let lim = (match limit {
                    Some(v) => v as int,
                    None => auctions.len() as int,
                });
                let avail = if start <= auctions.len() {
                    auctions.len() - start
                } else {
                    0
                };
                let count = if lim <= avail {
                    lim
                } else {
                    avail
                };
                &&& r@.len() == count
                &&& (forall|k: int|
                    0 <= k < count ==> r@[k] == spec_json_from_auction(
                        auctions[start + k].id,
                        auctions[start + k].auction,
                    ))
            }),
    {
        let n = self.market.auctions.len();
        let start_index: u128 = match from_index {
            Some(v) => v,
            None => 0,
        };
        let mut out: Vec<AuctionJson> = Vec::new();
        if start_index >= n as u128 {
            return out;
        }
        let start = start_index as usize;
        let remaining = n - start;
        let lim: usize = match limit {
            Some(v) => {
                if (v as u128) < (remaining as u128) {
                    v as usize
                } else {
                    remaining
                }
            },
            None => remaining,
        };
        let mut i: usize = 0;
        while i < lim
            invariant
                i <= lim,
                start + lim <= n,
                n == self.market.auctions@.len(),
                out@.len() == i,
                forall|k: int|
                    0 <= k < i ==> out@[k] == spec_json_from_auction(
                        self.market.auctions@[start + k].id,
                        self.market.auctions@[start + k].auction,
                    ),
            decreases lim - i,
        {
            out.push(self.json_from_auction(start + i));
            i = i + 1;
        }
        out
    }

    /// The client view of the auction at one table position.
    fn json_from_auction(&self, ai: usize) -> (r: AuctionJson)
        requires
            ai < self.market.auctions@.len(),
        ensures
            r == spec_json_from_auction(
                self.market.auctions@[ai as int].id,
                self.market.auctions@[ai as int].auction,
            ),
    {
        let entry = &self.market.auctions[ai];
        let a = &entry.auction;
        AuctionJson {
            auction_id: entry.id,
            owner_id: a.owner_id.clone(),
            nft_contract_id: a.nft_contract_id.clone(),
            token_id: a.token_id.clone(),
            token_type: clone_opt_string(&a.token_type),
            bid: match &a.bid {
                Some(b) => Some(clone_bid(b)),
                None => None,
            },
            created_at: a.created_at,
            start_price: a.start_price,
            minimal_step: a.minimal_step,
            buy_out_price: a.buy_out_price,
            start: a.start,
            end: a.end,
        }
    }
}

} // verus!
