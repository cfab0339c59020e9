//! Time-boxed ascending auctions: a single current bid per auction,
//! anti-sniping extension of the end time, and an optional buy-out price
//! that finalizes the auction immediately.

use vstd::prelude::*;

use crate::bid::{clone_bid, transfer_views, Bid};
use crate::market_core::AuctionArgs;
use crate::sale::{same_except_auctions, PurchaseRequest};
use crate::{AccountId, Market, MarketError, QueuedTransfer, TokenId, EXTENSION_DURATION};

verus! {

/// One auction over a single token.
#[derive(Clone, Debug)]
pub struct Auction {
    pub owner_id: AccountId,
    pub approval_id: u64,
    pub nft_contract_id: AccountId,
    pub token_id: TokenId,
    pub token_type: Option<String>,
    /// The current highest bid, if any; replaced (not laddered) by each
    /// accepted bid.
    pub bid: Option<Bid>,
    pub created_at: u64,
    pub start_price: u128,
    pub minimal_step: u128,
    pub buy_out_price: Option<u128>,
    pub start: u64,
    pub end: u64,
}

/// An auction together with the id under which the market stores it.
#[derive(Clone, Debug)]
pub struct AuctionEntry {
    pub id: u128,
    pub auction: Auction,
}

/// The view form of one auction, as handed to clients.
#[derive(Clone, Debug)]
pub struct AuctionJson {
    pub auction_id: u128,
    pub owner_id: AccountId,
    pub nft_contract_id: AccountId,
    pub token_id: TokenId,
    pub token_type: Option<String>,
    pub bid: Option<Bid>,
    pub created_at: u64,
    pub start_price: u128,
    pub minimal_step: u128,
    pub buy_out_price: Option<u128>,
    pub start: u64,
    pub end: u64,
}

impl Auction {
    /// An auction is in progress at `now` while `start <= now < end`.
    pub open spec fn spec_in_progress(self, now: u64) -> bool {
        self.start <= now < self.end
    }

    /// The least price the next bid must reach: the start price while no bid
    /// stands, one minimal step above the current bid afterwards.
    pub open spec fn spec_minimal_next_bid(self) -> int {
        match self.bid {
            Some(b) => b.price + self.minimal_step,
            None => self.start_price as int,
        }
    }
}

/// A well-formed auction: a coherent time box, and any standing bid at or
/// above the start price.
pub open spec fn auction_wf(a: Auction) -> bool {
    &&& a.start <= a.end
    &&& (a.bid matches Some(b) ==> b.price >= a.start_price)
}

/// Whether an auction is stored under `id`.
pub open spec fn has_auction(auctions: Seq<AuctionEntry>, id: u128) -> bool {
    exists|i: int| 0 <= i < auctions.len() && #[trigger] auctions[i].id == id
}

/// The index of the auction stored under `id` (meaningful only when
/// `has_auction`).
pub open spec fn auction_index(auctions: Seq<AuctionEntry>, id: u128) -> int {
    choose|i: int| 0 <= i < auctions.len() && #[trigger] auctions[i].id == id
}

/// The auction stored under `id` (meaningful only when `has_auction`).
pub open spec fn auction_at(auctions: Seq<AuctionEntry>, id: u128) -> Auction {
    auctions[auction_index(auctions, id)].auction
}

/// Well-formed auction table: ids unique and below the next free id, every
/// auction well formed.
pub open spec fn auctions_wf(auctions: Seq<AuctionEntry>, next_auction_id: u128) -> bool {
    &&& forall|i: int, j: int|
        #![trigger auctions[i], auctions[j]]
        0 <= i < j < auctions.len() ==> auctions[i].id != auctions[j].id
    &&& forall|i: int| 0 <= i < auctions.len() ==> (#[trigger] auctions[i].id) < next_auction_id
    &&& forall|i: int| 0 <= i < auctions.len() ==> auction_wf(#[trigger] auctions[i].auction)
}

/// Find the index of the auction stored under `id`.
pub fn find_auction(auctions: &Vec<AuctionEntry>, id: u128) -> (r: Option<usize>)
    ensures
        match r {
            Some(i) => i < auctions@.len() && auctions@[i as int].id == id
                && has_auction(auctions@, id),
            None => !has_auction(auctions@, id),
        },
{
    let n = auctions.len();
    let mut i: usize = 0;
    while i < n
        invariant
            i <= n,
            n == auctions@.len(),
            forall|k: int| 0 <= k < i ==> #[trigger] auctions@[k].id != id,
        decreases n - i,
    {
        if auctions[i].id == id {
            return Some(i);
        }
        i = i + 1;
    }
    None
}

/// With unique auction ids, the index of an id is the position its entry
/// stands at.
pub proof fn lemma_auction_index(auctions: Seq<AuctionEntry>, id: u128, i: int)
    requires
        forall|p: int, q: int|
            #![trigger auctions[p], auctions[q]]
            0 <= p < q < auctions.len() ==> auctions[p].id != auctions[q].id,
        0 <= i < auctions.len(),
        auctions[i].id == id,
    ensures
        has_auction(auctions, id),
        auction_index(auctions, id) == i,
        auction_at(auctions, id) == auctions[i].auction,
{
    assert(has_auction(auctions, id)) by {
        assert(auctions[i].id == id);
    }
    let j = auction_index(auctions, id);
    assert(0 <= j < auctions.len() && auctions[j].id == id);
    if i < j {
        assert(auctions[i].id != auctions[j].id);
    } else if j < i {
        assert(auctions[j].id != auctions[i].id);
    }
}

/// The settlement request that finalizing `a` for its current bid issues:
/// the token goes to the bid's owner against the bid's price in the native
/// currency, and the listing snapshot carries no conditions and no ladders.
pub open spec fn auction_settlement_views(req: PurchaseRequest, a: Auction, b: Bid) -> bool {
    &&& req.nft_contract_id == a.nft_contract_id
    &&& req.token_id == a.token_id
    &&& req.approval_id == a.approval_id
    &&& req.ft_token_id@ == "near"@
    &&& req.buyer_id == b.owner_id
    &&& req.price == b.price
    &&& req.sale.owner_id == a.owner_id
    &&& req.sale.approval_id == a.approval_id
    &&& req.sale.nft_contract_id == a.nft_contract_id
    &&& req.sale.token_id == a.token_id
    &&& req.sale.token_type == a.token_type
    &&& req.sale.sale_conditions@.len() == 0
    &&& req.sale.bids@.len() == 0
}

impl Market {
    /// Open a new auction from approval arguments: it gets the next free
    /// id, an end of `start + duration`, and no bid.
    pub fn start_auction(
        &mut self,
        args: AuctionArgs,
        token_id: TokenId,
        owner_id: AccountId,
        approval_id: u64,
        nft_contract_id: AccountId,
        now: u64,
    ) -> (r: (u128, Auction))
        requires
            old(self).wf(),
            args.start + args.duration <= u64::MAX,
            old(self).market.next_auction_id < u128::MAX,
        ensures
            final(self).wf(),
            same_except_auctions(final(self).market, old(self).market),
            final(self).queued_transfers == old(self).queued_transfers,
            r.0 == old(self).market.next_auction_id,
            r.1 == (Auction {
                owner_id,
                approval_id,
                nft_contract_id,
                token_id,
                token_type: args.token_type,
                bid: None,
                created_at: now,
                start_price: args.start_price,
                minimal_step: args.minimal_step,
                buy_out_price: args.buy_out_price,
                start: args.start,
                end: (args.start + args.duration) as u64,
            }),
            final(self).market.next_auction_id == old(self).market.next_auction_id + 1,
            final(self).market.auctions@ == old(self).market.auctions@.push(
                (AuctionEntry { id: old(self).market.next_auction_id, auction: r.1 }),
            ),
    {
        let auction = Auction {
            owner_id,
            approval_id,
            nft_contract_id,
            token_id,
            token_type: args.token_type,
            bid: None,
            created_at: now,
            start_price: args.start_price,
            minimal_step: args.minimal_step,
            buy_out_price: args.buy_out_price,
            start: args.start,
            end: args.start + args.duration,
        };
        let auction_id = self.market.next_auction_id;
        let auction_copy = clone_auction(&auction);
        self.market.auctions.push(AuctionEntry { id: auction_id, auction });
        self.market.next_auction_id = auction_id + 1;
        (auction_id, auction_copy)
    }

    /// Bid on a running auction: the attached deposit is the bid price. It
    /// must reach the minimal next bid; the previous bid is refunded at
    /// once. A price at or above the buy-out finalizes the auction in the
    /// same call and returns its settlement request. Otherwise the
    /// anti-sniping rule applies: a bid landing with less than the grace
    /// period left pushes the end out to a full grace period from now, and
    /// re-arms on every such late bid — so the window after a late bid is
    /// always exactly `EXTENSION_DURATION`, never growing without bound.
    pub fn place_auction_bid(
        &mut self,
        auction_id: u128,
        buyer_id: AccountId,
        attached_deposit: u128,
        now: u64,
    ) -> (r: Result<Option<PurchaseRequest>, MarketError>)
        requires
            old(self).wf(),
            now + EXTENSION_DURATION <= u64::MAX,
        ensures
            final(self).wf(),
            same_except_auctions(final(self).market, old(self).market),
            ({
                let found = has_auction(old(self).market.auctions@, auction_id);
                let a0 = auction_at(old(self).market.auctions@, auction_id);
                let running = a0.spec_in_progress(now);
                let high_enough = attached_deposit >= a0.spec_minimal_next_bid();
                &&& (r == Err::<Option<PurchaseRequest>, MarketError>(
                    MarketError::AuctionNotFound,
                ) <==> !found)
                &&& (r == Err::<Option<PurchaseRequest>, MarketError>(
                    MarketError::AuctionNotInProgress,
                ) <==> found && !running)
                &&& (r == Err::<Option<PurchaseRequest>, MarketError>(
                    MarketError::BidBelowMinimalNextBid,
                ) <==> found && running && !high_enough)
                &&& (r is Ok <==> found && running && high_enough)
            }),
            r is Err ==> *final(self) == *old(self),
            r is Ok ==> ({
                let auctions0 = old(self).market.auctions@;
                let ai = auction_index(auctions0, auction_id);
                let a0 = auctions0[ai].auction;
                let q0 = old(self).queued_transfers@;
                let q1 = final(self).queued_transfers@;
                let bought_out = a0.buy_out_price matches Some(bp) && attached_deposit >= bp;
                &&& (a0.bid matches Some(prev) ==> q1.len() == q0.len() + 1 && q1.take(
                    q0.len() as int,
                ) == q0 && transfer_views(q1[q0.len() as int], prev.owner_id@, prev.price,
                    "near"@))
                &&& (a0.bid is None ==> q1 == q0)
                &&& (bought_out ==> {
                    &&& final(self).market.auctions@ == auctions0.remove(ai)
                    &&& final(self).market.next_auction_id == old(self).market.next_auction_id
                    &&& (r matches Ok(Some(req)) && auction_settlement_views(
                        req,
                        a0,
                        (Bid { owner_id: buyer_id, price: attached_deposit, start: None,
                            end: None }),
                    ))
                })
                &&& (!bought_out ==> {
                    &&& r == Ok::<Option<PurchaseRequest>, MarketError>(None)
                    &&& final(self).market.next_auction_id == old(self).market.next_auction_id
                    &&& final(self).market.auctions@ == auctions0.update(
                        ai,
                        (AuctionEntry {
                            id: auction_id,
                            auction: (Auction {
                                bid: Some(
                                    (Bid { owner_id: buyer_id, price: attached_deposit,
                                        start: None, end: None }),
                                ),
                                end: (if now + EXTENSION_DURATION > a0.end {
                                    (now + EXTENSION_DURATION) as u64
                                } else {
                                    a0.end
                                }),
                                ..a0
                            }),
                        }),
                    )
                })
            }),
    {
        let ai = match find_auction(&self.market.auctions, auction_id) {
            None => { return Err(MarketError::AuctionNotFound); },
            Some(ai) => ai,
        };
        let ghost auctions0 = self.market.auctions@;
        proof {
            lemma_auction_index(auctions0, auction_id, ai as int);
        }
        let running = {
            let a = &self.market.auctions[ai].auction;
            a.start <= now && now < a.end
        };
        if !running {
            return Err(MarketError::AuctionNotInProgress);
        }
        // the minimal next bid, rejecting bids that cannot reach it even
        // when the exact value would not fit the price type
        let high_enough = match &self.market.auctions[ai].auction.bid {
            Some(prev) => {
                if self.market.auctions[ai].auction.minimal_step > u128::MAX - prev.price {
                    false
                } else {
                    attached_deposit >= prev.price + self.market.auctions[ai].auction.minimal_step
                }
            },
            None => attached_deposit >= self.market.auctions[ai].auction.start_price,
        };
        if !high_enough {
            return Err(MarketError::BidBelowMinimalNextBid);
        }
        let mut entry = self.market.auctions.remove(ai);
        let ghost a0 = auctions0[ai as int].auction;
        match &entry.auction.bid {
            Some(prev) => {
                let near = String::from_str("near");
                self.queued_transfers.push(QueuedTransfer {
                    receiver_id: prev.owner_id.clone(),
                    amount: prev.price,
                    ft_token_id: near,
                });
                proof {
                    assert(self.queued_transfers@.take(old(self).queued_transfers@.len() as int)
                        =~= old(self).queued_transfers@);
                }
            },
            None => {},
        }
        let new_bid = Bid { owner_id: buyer_id, price: attached_deposit, start: None, end: None };
        let bought_out = match entry.auction.buy_out_price {
            Some(bp) => attached_deposit >= bp,
            None => false,
        };
        if bought_out {
            proof {
                let auctions1 = self.market.auctions@;
                assert(auctions1 =~= auctions0.remove(ai as int));
                assert forall|p: int, q: int|
                    #![trigger auctions1[p], auctions1[q]]
                    0 <= p < q < auctions1.len() implies auctions1[p].id != auctions1[q].id by {
                    let p0 = if p < ai { p } else { p + 1 };
                    let q0 = if q < ai { q } else { q + 1 };
                    assert(auctions1[p] == auctions0[p0] && auctions1[q] == auctions0[q0]);
                }
                assert(forall|k: int|
                    0 <= k < auctions1.len() ==> #[trigger] auctions1[k] == auctions0[
                        if k < ai { k } else { k + 1 }
                    ]);
            }
            let conditions: Vec<crate::sale::SaleCondition> = Vec::new();
            let no_bids: crate::bid::Bids = Vec::new();
            let near = String::from_str("near");
            let sale = crate::sale::Sale {
                owner_id: entry.auction.owner_id.clone(),
                approval_id: entry.auction.approval_id,
                nft_contract_id: entry.auction.nft_contract_id.clone(),
                token_id: entry.auction.token_id.clone(),
                sale_conditions: conditions,
                bids: no_bids,
                created_at: entry.auction.created_at,
                token_type: entry.auction.token_type,
                start: None,
                end: None,
            };
            Ok(Some(PurchaseRequest {
                nft_contract_id: entry.auction.nft_contract_id,
                token_id: entry.auction.token_id,
                approval_id: entry.auction.approval_id,
                ft_token_id: near,
                buyer_id: new_bid.owner_id,
                price: new_bid.price,
                sale,
            }))
        } else {
            entry.auction.bid = Some(new_bid);
            if now + EXTENSION_DURATION > entry.auction.end {
                entry.auction.end = now + EXTENSION_DURATION;
            }
            self.market.auctions.insert(ai, entry);
            proof {
                assert(self.market.auctions@ =~= auctions0.update(
                    ai as int,
                    self.market.auctions@[ai as int],
                ));
            }
            Ok(None)
        }
    }

    /// Finalize an auction whose time box has closed: the auction leaves
    /// the table; with a standing bid this returns the settlement request
    /// that transfers the token to the highest bidder, without one there is
    /// nothing to settle and the token simply stays approved to its owner.
    pub fn finish_auction(&mut self, auction_id: u128, now: u64) -> (r: Result<
        Option<PurchaseRequest>,
        MarketError,
    >)
        requires
            old(self).wf(),
        ensures
            final(self).wf(),
            same_except_auctions(final(self).market, old(self).market),
            final(self).queued_transfers == old(self).queued_transfers,
            ({
                let found = has_auction(old(self).market.auctions@, auction_id);
                let a0 = auction_at(old(self).market.auctions@, auction_id);
                &&& (r == Err::<Option<PurchaseRequest>, MarketError>(
                    MarketError::AuctionNotFound,
                ) <==> !found)
                &&& (r == Err::<Option<PurchaseRequest>, MarketError>(
                    MarketError::AuctionNotEnded,
                ) <==> found && now < a0.end)
                &&& (r is Ok <==> found && now >= a0.end)
            }),
            r is Err ==> *final(self) == *old(self),
            r is Ok ==> ({
                let auctions0 = old(self).market.auctions@;
                let ai = auction_index(auctions0, auction_id);
                let a0 = auctions0[ai].auction;
                &&& final(self).market.auctions@ == auctions0.remove(ai)
                &&& final(self).market.next_auction_id == old(self).market.next_auction_id
                &&& (a0.bid is None ==> r == Ok::<Option<PurchaseRequest>, MarketError>(None))
                &&& (a0.bid matches Some(b) ==> r matches Ok(Some(req))
                    && auction_settlement_views(req, a0, b))
            }),
    {
        let ai = match find_auction(&self.market.auctions, auction_id) {
            None => { return Err(MarketError::AuctionNotFound); },
            Some(ai) => ai,
        };
        let ghost auctions0 = self.market.auctions@;
        proof {
            lemma_auction_index(auctions0, auction_id, ai as int);
        }
        if now < self.market.auctions[ai].auction.end {
            return Err(MarketError::AuctionNotEnded);
        }
        let entry = self.market.auctions.remove(ai);
        proof {
            let auctions1 = self.market.auctions@;
            assert(auctions1 =~= auctions0.remove(ai as int));
            assert forall|p: int, q: int|
                #![trigger auctions1[p], auctions1[q]]
                0 <= p < q < auctions1.len() implies auctions1[p].id != auctions1[q].id by {
                let p0 = if p < ai { p } else { p + 1 };
                let q0 = if q < ai { q } else { q + 1 };
                assert(auctions1[p] == auctions0[p0] && auctions1[q] == auctions0[q0]);
            }
            assert(forall|k: int|
                0 <= k < auctions1.len() ==> #[trigger] auctions1[k] == auctions0[
                    if k < ai { k } else { k + 1 }
                ]);
        }
        match entry.auction.bid {
            None => Ok(None),
            Some(b) => {
                let conditions: Vec<crate::sale::SaleCondition> = Vec::new();
                let no_bids: crate::bid::Bids = Vec::new();
                let near = String::from_str("near");
                let sale = crate::sale::Sale {
                    owner_id: entry.auction.owner_id.clone(),
                    approval_id: entry.auction.approval_id,
                    nft_contract_id: entry.auction.nft_contract_id.clone(),
                    token_id: entry.auction.token_id.clone(),
                    sale_conditions: conditions,
                    bids: no_bids,
                    created_at: entry.auction.created_at,
                    token_type: entry.auction.token_type,
                    start: None,
                    end: None,
                };
                Ok(Some(PurchaseRequest {
                    nft_contract_id: entry.auction.nft_contract_id,
                    token_id: entry.auction.token_id,
                    approval_id: entry.auction.approval_id,
                    ft_token_id: near,
                    buyer_id: b.owner_id,
                    price: b.price,
                    sale,
                }))
            },
        }
    }
}

/// An explicit copy of an auction, field by field.
pub fn clone_auction(a: &Auction) -> (r: Auction)
    ensures
        r == *a,
{
    Auction {
        owner_id: a.owner_id.clone(),
        approval_id: a.approval_id,
        nft_contract_id: a.nft_contract_id.clone(),
        token_id: a.token_id.clone(),
        token_type: clone_opt_string(&a.token_type),
        bid: match &a.bid {
            Some(b) => Some(clone_bid(b)),
            None => None,
        },
        created_at: a.created_at,
        start_price: a.start_price,
        minimal_step: a.minimal_step,
        buy_out_price: a.buy_out_price,
        start: a.start,
        end: a.end,
    }
}

/// An explicit copy of an optional string.
pub fn clone_opt_string(s: &Option<String>) -> (r: Option<String>)
    ensures
        r == *s,
{
    match s {
        Some(x) => Some(x.clone()),
        None => None,
    }
}

/// The client view of `auction` as stored under `id`.
pub open spec fn spec_json_from_auction(id: u128, a: Auction) -> AuctionJson {
    AuctionJson {
        auction_id: id,
        owner_id: a.owner_id,
        nft_contract_id: a.nft_contract_id,
        token_id: a.token_id,
        token_type: a.token_type,
        bid: a.bid,
        created_at: a.created_at,
        start_price: a.start_price,
        minimal_step: a.minimal_step,
        buy_out_price: a.buy_out_price,
        start: a.start,
        end: a.end,
    }
}

} // verus!
