//! Bids and per-asset bid ladders: bounded, price-ordered histories of
//! outstanding bids on one listing.

use vstd::prelude::*;

use crate::sale::{
    has_sale, lemma_sale_index, sale_at, sale_index, same_except_sales, Sale,
};
use crate::{AccountId, FungibleTokenId, Market, MarketError, QueuedTransfer, TokenId};

verus! {

/// One outstanding bid: who bid, how much, and an optional validity window.
#[derive(Clone, Debug)]
pub struct Bid {
    pub owner_id: AccountId,
    pub price: u128,
    pub start: Option<u64>,
    pub end: Option<u64>,
}

impl Bid {
    /// A bid is in its limits while `now` lies in `[start, end)`; either
    /// bound is open when absent.
    pub open spec fn spec_in_limits(self, now: u64) -> bool {
        &&& (self.start matches Some(s) ==> s <= now)
        &&& (self.end matches Some(e) ==> now < e)
    }

    /// Whether the bid may be acted on at time `now`.
    pub fn in_limits(&self, now: u64) -> (r: bool)
        ensures
            r == self.spec_in_limits(now),
    {
        let mut res = true;
        if let Some(start) = self.start {
            res = res && start <= now;
        }
        if let Some(end) = self.end {
            res = res && now < end;
        }
        res
    }

    /// A bid has expired when it has an end time that has elapsed.
    pub open spec fn spec_expired(self, now: u64) -> bool {
        self.end matches Some(e) && now >= e
    }
}

/// The bid ladder of one payment asset on one listing.
#[derive(Clone, Debug)]
pub struct TokenBids {
    pub ft_token_id: FungibleTokenId,
    pub bids: Vec<Bid>,
}

/// All bid ladders of one listing, keyed by payment asset.
pub type Bids = Vec<TokenBids>;

/// The transfer that refunds `bid`, previously paid in `ft`.
pub open spec fn refund_of(ft: AccountId, bid: Bid) -> QueuedTransfer {
    QueuedTransfer { receiver_id: bid.owner_id, amount: bid.price, ft_token_id: ft }
}

/// Whether `bids` holds a ladder for the asset `ft`.
pub open spec fn has_ladder(bids: Seq<TokenBids>, ft: Seq<char>) -> bool {
    exists|i: int| 0 <= i < bids.len() && #[trigger] bids[i].ft_token_id@ == ft
}

/// The index of the ladder for `ft` (meaningful only when `has_ladder`).
pub open spec fn ladder_index(bids: Seq<TokenBids>, ft: Seq<char>) -> int {
    choose|i: int| 0 <= i < bids.len() && #[trigger] bids[i].ft_token_id@ == ft
}

/// The ladder for `ft` (meaningful only when `has_ladder`).
pub open spec fn ladder_of(bids: Seq<TokenBids>, ft: Seq<char>) -> Seq<Bid> {
    bids[ladder_index(bids, ft)].bids@
}

/// A well-formed ladder: non-empty, within the capacity bound, and with
/// strictly increasing prices in insertion order.
pub open spec fn ladder_wf(l: Seq<Bid>, cap: int) -> bool {
    &&& 1 <= l.len() <= cap
    &&& forall|i: int, j: int|
        #![trigger l[i], l[j]]
        0 <= i < j < l.len() ==> l[i].price < l[j].price
}

/// Well-formed ladders of one listing: asset keys are unique and every
/// ladder is well formed.
pub open spec fn bids_wf(bids: Seq<TokenBids>, cap: int) -> bool {
    &&& forall|i: int, j: int|
        #![trigger bids[i], bids[j]]
        0 <= i < j < bids.len() ==> bids[i].ft_token_id@ != bids[j].ft_token_id@
    &&& forall|i: int| 0 <= i < bids.len() ==> ladder_wf(#[trigger] bids[i].bids@, cap)
}

/// With unique asset keys, the index of a ladder's key is the position the
/// ladder stands at.
pub proof fn lemma_ladder_index(bids: Seq<TokenBids>, ft: Seq<char>, i: int)
    requires
        forall|p: int, q: int|
            #![trigger bids[p], bids[q]]
            0 <= p < q < bids.len() ==> bids[p].ft_token_id@ != bids[q].ft_token_id@,
        0 <= i < bids.len(),
        bids[i].ft_token_id@ == ft,
    ensures
        has_ladder(bids, ft),
        ladder_index(bids, ft) == i,
        ladder_of(bids, ft) == bids[i].bids@,
{
    assert(has_ladder(bids, ft)) by {
        assert(bids[i].ft_token_id@ == ft);
    }
    let j = ladder_index(bids, ft);
    assert(0 <= j < bids.len() && bids[j].ft_token_id@ == ft);
    if i < j {
        assert(bids[i].ft_token_id@ != bids[j].ft_token_id@);
    } else if j < i {
        assert(bids[j].ft_token_id@ != bids[i].ft_token_id@);
    }
}

/// The observable content of one queued transfer.
pub open spec fn transfer_views(
    tr: QueuedTransfer,
    receiver: Seq<char>,
    amount: u128,
    ft: Seq<char>,
) -> bool {
    tr.receiver_id@ == receiver && tr.amount == amount && tr.ft_token_id@ == ft
}

/// The state change of accepting the bid `b` in asset `ft` on listing
/// `(c, t)`: the bid joins (or opens) its ladder, the oldest bid of a
/// ladder past the bound is refunded and evicted, and nothing else changes.
pub open spec fn added_bid_state(
    m0: crate::sale::MarketSales,
    m1: crate::sale::MarketSales,
    q0: Seq<QueuedTransfer>,
    q1: Seq<QueuedTransfer>,
    c: Seq<char>,
    t: Seq<char>,
    ft: Seq<char>,
    b: Bid,
) -> bool {
    let sales0 = m0.sales@;
    let si = sale_index(sales0, c, t);
    let s0 = sales0[si];
    let cap = m0.bid_history_length as int;
    let laddered = has_ladder(s0.bids@, ft);
    let li = ladder_index(s0.bids@, ft);
    let l0 = ladder_of(s0.bids@, ft);
    let s1 = m1.sales@[si];
    &&& same_except_sales(m1, m0)
    &&& m1.sales@.len() == sales0.len()
    &&& (forall|k: int| 0 <= k < sales0.len() && k != si ==> m1.sales@[k] == sales0[k])
    &&& crate::sale::sale_same_except_bids(s1, s0)
    &&& (laddered ==> {
        &&& s1.bids@.len() == s0.bids@.len()
        &&& (forall|k: int| 0 <= k < s0.bids@.len() && k != li ==> s1.bids@[k] == s0.bids@[k])
        &&& s1.bids@[li].ft_token_id == s0.bids@[li].ft_token_id
        &&& s1.bids@[li].bids@ == ladder_with_bid(l0, b, cap)
    })
    &&& (!laddered ==> {
        &&& s1.bids@.len() == s0.bids@.len() + 1
        &&& (forall|k: int| 0 <= k < s0.bids@.len() ==> s1.bids@[k] == s0.bids@[k])
        &&& s1.bids@[s0.bids@.len() as int].ft_token_id@ == ft
        &&& s1.bids@[s0.bids@.len() as int].bids@ =~= seq![b]
    })
    &&& (laddered && l0.len() >= cap ==> q1.len() == q0.len() + 1 && q1.take(q0.len() as int)
        == q0 && transfer_views(q1.last(), l0[0].owner_id@, l0[0].price, ft))
    &&& (!(laddered && l0.len() >= cap) ==> q1 == q0)
}

/// How one ladder absorbs a new top bid `b` under the capacity bound `cap`:
/// the bid is appended, and when that exceeds the capacity the oldest bid
/// (index 0) leaves.
pub open spec fn ladder_with_bid(l: Seq<Bid>, b: Bid, cap: int) -> Seq<Bid> {
    if l.len() + 1 > cap {
        l.drop_first().push(b)
    } else {
        l.push(b)
    }
}

/// Whether `b` is the bid of `owner` at `price`.
pub open spec fn bid_matches(b: Bid, owner: Seq<char>, price: u128) -> bool {
    b.owner_id@ == owner && b.price == price
}

/// Whether the ladder holds a bid of `owner` at `price`.
pub open spec fn ladder_has_match(l: Seq<Bid>, owner: Seq<char>, price: u128) -> bool {
    exists|i: int| 0 <= i < l.len() && bid_matches(#[trigger] l[i], owner, price)
}

/// The position of the bid of `owner` at `price` (meaningful only when
/// `ladder_has_match`).
pub open spec fn bid_match_index(l: Seq<Bid>, owner: Seq<char>, price: u128) -> int {
    choose|i: int| 0 <= i < l.len() && bid_matches(#[trigger] l[i], owner, price)
}

/// In a strictly price-ordered ladder a price occurs at most once, so the
/// position of a match is determined.
pub proof fn lemma_bid_match_index(l: Seq<Bid>, owner: Seq<char>, price: u128, i: int)
    requires
        forall|p: int, q: int|
            #![trigger l[p], l[q]]
            0 <= p < q < l.len() ==> l[p].price < l[q].price,
        0 <= i < l.len(),
        bid_matches(l[i], owner, price),
    ensures
        ladder_has_match(l, owner, price),
        bid_match_index(l, owner, price) == i,
{
    assert(ladder_has_match(l, owner, price)) by {
        assert(bid_matches(l[i], owner, price));
    }
    let j = bid_match_index(l, owner, price);
    assert(0 <= j < l.len() && bid_matches(l[j], owner, price));
    if i < j {
        assert(l[i].price < l[j].price);
    } else if j < i {
        assert(l[j].price < l[i].price);
    }
}

/// The refunds of one ladder, oldest bid first.
pub open spec fn ladder_refunds(ft: AccountId, l: Seq<Bid>) -> Seq<QueuedTransfer> {
    l.map_values(|b: Bid| refund_of(ft, b))
}

/// The refunds of all ladders of one listing, in storage order.
pub open spec fn all_refunds(entries: Seq<TokenBids>) -> Seq<QueuedTransfer>
    decreases entries.len(),
{
    if entries.len() == 0 {
        Seq::empty()
    } else {
        all_refunds(entries.drop_last()) + ladder_refunds(
            entries.last().ft_token_id,
            entries.last().bids@,
        )
    }
}

/// Removing any bid from a strictly price-ordered ladder keeps it ordered.
pub proof fn lemma_remove_sorted(l: Seq<Bid>, mi: int)
    requires
        forall|p: int, q: int|
            #![trigger l[p], l[q]]
            0 <= p < q < l.len() ==> l[p].price < l[q].price,
        0 <= mi < l.len(),
    ensures
        forall|p: int, q: int|
            #![trigger l.remove(mi)[p], l.remove(mi)[q]]
            0 <= p < q < l.remove(mi).len() ==> l.remove(mi)[p].price < l.remove(mi)[q].price,
{
    let l1 = l.remove(mi);
    assert forall|p: int, q: int|
        #![trigger l1[p], l1[q]]
        0 <= p < q < l1.len() implies l1[p].price < l1[q].price by {
        let p0 = if p < mi { p } else { p + 1 };
        let q0 = if q < mi { q } else { q + 1 };
        assert(l1[p] == l[p0] && l1[q] == l[q0]);
        assert(l[p0].price < l[q0].price);
    }
}

/// Filtering a ladder whose prices all lie below `bound` keeps them there.
pub proof fn lemma_filter_price_bound(l: Seq<Bid>, pred: spec_fn(Bid) -> bool, bound: u128)
    requires
        forall|i: int| 0 <= i < l.len() ==> (#[trigger] l[i]).price < bound,
    ensures
        forall|i: int|
            0 <= i < l.filter(pred).len() ==> (#[trigger] l.filter(pred)[i]).price < bound,
    decreases l.len(),
{
    reveal(Seq::filter);
    if l.len() > 0 {
        let dl = l.drop_last();
        assert(forall|i: int| 0 <= i < dl.len() ==> (#[trigger] dl[i]).price < bound);
        lemma_filter_price_bound(dl, pred, bound);
    }
}

/// Filtering a strictly price-ordered ladder keeps it ordered.
pub proof fn lemma_filter_sorted(l: Seq<Bid>, pred: spec_fn(Bid) -> bool)
    requires
        forall|p: int, q: int|
            #![trigger l[p], l[q]]
            0 <= p < q < l.len() ==> l[p].price < l[q].price,
    ensures
        forall|p: int, q: int|
            #![trigger l.filter(pred)[p], l.filter(pred)[q]]
            0 <= p < q < l.filter(pred).len() ==> l.filter(pred)[p].price < l.filter(
                pred,
            )[q].price,
    decreases l.len(),
{
    reveal(Seq::filter);
    if l.len() > 0 {
        let dl = l.drop_last();
        lemma_filter_sorted(dl, pred);
        assert(forall|i: int| 0 <= i < dl.len() ==> (#[trigger] dl[i]).price < l.last().price);
        lemma_filter_price_bound(dl, pred, l.last().price);
        let out = l.filter(pred);
        if pred(l.last()) {
            assert(out == dl.filter(pred).push(l.last()));
            assert forall|p: int, q: int|
                #![trigger out[p], out[q]]
                0 <= p < q < out.len() implies out[p].price < out[q].price by {
                if q < out.len() - 1 {
                    assert(out[p] == dl.filter(pred)[p] && out[q] == dl.filter(pred)[q]);
                } else {
                    assert(out[p] == dl.filter(pred)[p]);
                }
            }
        }
    }
}

/// In a strictly price-ordered ladder, removing a matching bid leaves no
/// bid of that owner and price behind: the refund of a removed bid can
/// happen only once.
pub proof fn lemma_remove_match_leaves_none(l: Seq<Bid>, owner: Seq<char>, price: u128, mi: int)
    requires
        forall|p: int, q: int|
            #![trigger l[p], l[q]]
            0 <= p < q < l.len() ==> l[p].price < l[q].price,
        0 <= mi < l.len(),
        bid_matches(l[mi], owner, price),
    ensures
        !ladder_has_match(l.remove(mi), owner, price),
{
    let l1 = l.remove(mi);
    assert forall|k: int| 0 <= k < l1.len() implies !bid_matches(#[trigger] l1[k], owner, price)
        by {
        let k0 = if k < mi { k } else { k + 1 };
        assert(l1[k] == l[k0]);
        if k0 < mi {
            assert(l[k0].price < l[mi].price);
        } else {
            assert(l[mi].price < l[k0].price);
        }
    }
}

/// The state change of removing the bid of `owner` at `price` from the
/// ladder of `ft` on listing `(c, t)`: that bid leaves its ladder, an
/// emptied ladder leaves the listing, and nothing else changes.
pub open spec fn removed_bid_state(
    m0: crate::sale::MarketSales,
    m1: crate::sale::MarketSales,
    c: Seq<char>,
    t: Seq<char>,
    ft: Seq<char>,
    owner: Seq<char>,
    price: u128,
) -> bool {
    let sales0 = m0.sales@;
    let si = sale_index(sales0, c, t);
    let s0 = sales0[si];
    let li = ladder_index(s0.bids@, ft);
    let l0 = ladder_of(s0.bids@, ft);
    let mi = bid_match_index(l0, owner, price);
    let s1 = m1.sales@[si];
    &&& same_except_sales(m1, m0)
    &&& m1.sales@.len() == sales0.len()
    &&& (forall|k: int| 0 <= k < sales0.len() && k != si ==> m1.sales@[k] == sales0[k])
    &&& crate::sale::sale_same_except_bids(s1, s0)
    &&& (if l0.len() == 1 {
        s1.bids@ == s0.bids@.remove(li)
    } else {
        &&& s1.bids@.len() == s0.bids@.len()
        &&& (forall|k: int| 0 <= k < s0.bids@.len() && k != li ==> s1.bids@[k] == s0.bids@[k])
        &&& s1.bids@[li].ft_token_id == s0.bids@[li].ft_token_id
        &&& s1.bids@[li].bids@ == l0.remove(mi)
    })
}

/// Find the first bid of `owner` at `price` in the ladder.
pub fn find_bid_match(l: &Vec<Bid>, owner: &AccountId, price: u128) -> (r: Option<usize>)
    ensures
        match r {
            Some(i) => i < l@.len() && bid_matches(l@[i as int], owner@, price)
                && ladder_has_match(l@, owner@, price),
            None => !ladder_has_match(l@, owner@, price),
        },
{
    let n = l.len();
    let mut i: usize = 0;
    while i < n
        invariant
            i <= n,
            n == l@.len(),
            forall|k: int| 0 <= k < i ==> !bid_matches(#[trigger] l@[k], owner@, price),
        decreases n - i,
    {
        if l[i].owner_id == *owner && l[i].price == price {
            return Some(i);
        }
        i = i + 1;
    }
    None
}

impl Market {
    /// Queue the best-effort transfer that pays `bid` back to its owner, in
    /// the asset `bid_ft` it was placed in. The host later performs it as a
    /// direct balance transfer for the native asset and as an asynchronous
    /// transfer call to the asset contract otherwise.
    pub fn refund_bid(&mut self, bid_ft: FungibleTokenId, bid: &Bid)
        ensures
            final(self).market == old(self).market,
            final(self).queued_transfers@ == old(self).queued_transfers@.push(
                refund_of(bid_ft, *bid),
            ),
    {
        self.queued_transfers.push(QueuedTransfer {
            receiver_id: bid.owner_id.clone(),
            amount: bid.price,
            ft_token_id: bid_ft,
        });
    }

    /// Queue refunds for every outstanding bid of a listing, ladder by
    /// ladder in storage order, oldest bid first within each ladder.
    pub fn refund_all_bids(&mut self, bids_map: &Bids)
        ensures
            final(self).market == old(self).market,
            final(self).queued_transfers@ == old(self).queued_transfers@
                + all_refunds(bids_map@),
    {
        let ghost q0 = self.queued_transfers@;
        let n = bids_map.len();
        let mut i: usize = 0;
        while i < n
            invariant
                i <= n,
                n == bids_map@.len(),
                self.market == old(self).market,
                self.queued_transfers@ == q0 + all_refunds(bids_map@.take(i as int)),
            decreases n - i,
        {
            let entry = &bids_map[i];
            let m = entry.bids.len();
            let mut j: usize = 0;
            while j < m
                invariant
                    j <= m,
                    i < n,
                    n == bids_map@.len(),
                    m == bids_map@[i as int].bids@.len(),
                    entry == &bids_map[i as int],
                    self.market == old(self).market,
                    self.queued_transfers@ == q0 + all_refunds(bids_map@.take(i as int))
                        + ladder_refunds(
                        bids_map@[i as int].ft_token_id,
                        bids_map@[i as int].bids@.take(j as int),
                    ),
                decreases m - j,
            {
                self.refund_bid(entry.ft_token_id.clone(), &entry.bids[j]);
                proof {
                    let ft = bids_map@[i as int].ft_token_id;
                    let l = bids_map@[i as int].bids@;
                    assert(ladder_refunds(ft, l.take(j + 1)) =~= ladder_refunds(
                        ft,
                        l.take(j as int),
                    ).push(refund_of(ft, l[j as int])));
                    assert(q0 + all_refunds(bids_map@.take(i as int)) + ladder_refunds(
                        ft,
                        l.take(j + 1),
                    ) =~= (q0 + all_refunds(bids_map@.take(i as int)) + ladder_refunds(
                        ft,
                        l.take(j as int),
                    )).push(refund_of(ft, l[j as int])));
                }
                j = j + 1;
            }
            proof {
                let pre = bids_map@.take(i as int);
                let cur = bids_map@.take(i + 1);
                assert(cur.drop_last() =~= pre);
                assert(cur.last() == bids_map@[i as int]);
                assert(bids_map@[i as int].bids@.take(bids_map@[i as int].bids@.len() as int)
                    =~= bids_map@[i as int].bids@);
                assert(q0 + all_refunds(cur) =~= q0 + all_refunds(pre) + ladder_refunds(
                    bids_map@[i as int].ft_token_id,
                    bids_map@[i as int].bids@,
                ));
            }
            i = i + 1;
        }
        proof {
            assert(bids_map@.take(n as int) =~= bids_map@);
        }
    }
}

impl Market {
    /// Place a bid of `amount` in asset `ft_token_id` on one listing.
    ///
    /// The bid must strictly exceed the current highest bid of its ladder;
    /// it is appended, and when the ladder then exceeds the market's
    /// `bid_history_length` the oldest bid (index 0) is refunded and
    /// evicted. Superseding a lower bid does not by itself refund it.
    pub fn add_bid(
        &mut self,
        nft_contract_id: AccountId,
        token_id: TokenId,
        amount: u128,
        ft_token_id: FungibleTokenId,
        buyer_id: AccountId,
        start: Option<u64>,
        end: Option<u64>,
    ) -> (r: Result<(), MarketError>)
        requires
            old(self).wf(),
        ensures
            final(self).wf(),
            same_except_sales(final(self).market, old(self).market),
            ({
                let supported = crate::sale::id_listed(
                    old(self).market.ft_token_ids@,
                    ft_token_id@,
                );
                let listed = has_sale(old(self).market.sales@, nft_contract_id@, token_id@);
                let s0 = sale_at(old(self).market.sales@, nft_contract_id@, token_id@);
                let l0 = ladder_of(s0.bids@, ft_token_id@);
                let laddered = has_ladder(s0.bids@, ft_token_id@);
                &&& (r == Err::<(), MarketError>(MarketError::TokenNotSupported) <==> !supported)
                &&& (r == Err::<(), MarketError>(MarketError::NoSale) <==> supported && !listed)
                &&& (r == Err::<(), MarketError>(MarketError::BidTooLow) <==> supported && listed
                    && laddered && amount <= l0.last().price)
                &&& (r is Ok <==> supported && listed && (laddered ==> amount > l0.last().price))
            }),
            r is Err ==> *final(self) == *old(self),
            r is Ok ==> added_bid_state(
                old(self).market,
                final(self).market,
                old(self).queued_transfers@,
                final(self).queued_transfers@,
                nft_contract_id@,
                token_id@,
                ft_token_id@,
                (Bid { owner_id: buyer_id, price: amount, start, end }),
            ),
    {
        let supported = crate::sale::ids_contain(&self.market.ft_token_ids, &ft_token_id);
        if !supported {
            return Err(MarketError::TokenNotSupported);
        }
        let si = match crate::sale::find_sale(&self.market.sales, &nft_contract_id, &token_id) {
            None => { return Err(MarketError::NoSale); },
            Some(si) => si,
        };
        proof {
            lemma_sale_index(
                self.market.sales@,
                nft_contract_id@,
                token_id@,
                si as int,
            );
        }
        let cap = self.market.bid_history_length as usize;
        let new_bid = Bid { owner_id: buyer_id, price: amount, start, end };
        let ghost sales0 = self.market.sales@;
        let ghost s0 = sales0[si as int];
        match find_ladder(&self.market.sales[si].bids, &ft_token_id) {
            Some(li) => {
                proof {
                    lemma_ladder_index(s0.bids@, ft_token_id@, li as int);
                }
                let llen = self.market.sales[si].bids[li].bids.len();
                let last_price = self.market.sales[si].bids[li].bids[llen - 1].price;
                proof {
                    assert(s0.bids@[li as int].bids@.last().price == last_price);
                }
                if amount <= last_price {
                    return Err(MarketError::BidTooLow);
                }
                let mut sale = self.market.sales.remove(si);
                let mut entry = sale.bids.remove(li);
                let ghost l0 = entry.bids@;
                entry.bids.push(new_bid);
                if entry.bids.len() > cap {
                    self.refund_bid(ft_token_id, &entry.bids[0]);
                    entry.bids.remove(0);
                    proof {
                        assert(entry.bids@ =~= l0.drop_first().push(new_bid));
                    }
                }
                sale.bids.insert(li, entry);
                proof {
                    assert(sale.bids@ =~= s0.bids@.update(li as int, sale.bids@[li as int]));
                }
                self.market.sales.insert(si, sale);
                proof {
                    assert(self.market.sales@ =~= sales0.update(
                        si as int,
                        self.market.sales@[si as int],
                    ));
                    let s1 = self.market.sales@[si as int];
                    let lnew = s1.bids@[li as int].bids@;
                    assert forall|p: int, q: int|
                        #![trigger lnew[p], lnew[q]]
                        0 <= p < q < lnew.len() implies lnew[p].price < lnew[q].price by {
                        if l0.len() + 1 > cap {
                            if q < lnew.len() - 1 {
                                assert(lnew[p] == l0[p + 1] && lnew[q] == l0[q + 1]);
                            } else {
                                assert(lnew[p] == l0[p + 1]);
                                assert(l0[p + 1].price <= l0[l0.len() - 1].price);
                            }
                        } else {
                            if q < lnew.len() - 1 {
                                assert(lnew[p] == l0[p] && lnew[q] == l0[q]);
                            } else {
                                assert(lnew[p] == l0[p]);
                                assert(l0[p].price <= l0[l0.len() - 1].price);
                            }
                        }
                    }
                    assert(crate::sale::market_sales_wf(self.market));
                    if l0.len() + 1 > cap {
                        assert(self.queued_transfers@.take(
                            old(self).queued_transfers@.len() as int,
                        ) =~= old(self).queued_transfers@);
                    }
                }
                Ok(())
            },
            None => {
                let mut sale = self.market.sales.remove(si);
                let mut ladder: Vec<Bid> = Vec::new();
                ladder.push(new_bid);
                sale.bids.push(TokenBids { ft_token_id, bids: ladder });
                proof {
                    assert(sale.bids@.drop_last() =~= s0.bids@);
                }
                self.market.sales.insert(si, sale);
                proof {
                    assert(self.market.sales@ =~= sales0.update(
                        si as int,
                        self.market.sales@[si as int],
                    ));
                    assert(crate::sale::market_sales_wf(self.market));
                }
                Ok(())
            },
        }
    }
}

/// An explicit copy of a bid, field by field.
pub fn clone_bid(b: &Bid) -> (r: Bid)
    ensures
        r == *b,
{
    Bid { owner_id: b.owner_id.clone(), price: b.price, start: b.start, end: b.end }
}

/// The bids that have an end time that has elapsed by `now`.
pub open spec fn expired_pred(now: u64) -> spec_fn(Bid) -> bool {
    |b: Bid| b.spec_expired(now)
}

/// The bids that have no end time, or one still to come at `now`.
pub open spec fn live_pred(now: u64) -> spec_fn(Bid) -> bool {
    |b: Bid| !b.spec_expired(now)
}

impl Market {
    /// Remove the bid of `bid.owner_id` at `bid.price` from the ladder of
    /// `ft_token_id` on one listing; an emptied ladder leaves the listing.
    /// The refund is the caller's duty.
    fn internal_remove_bid(
        &mut self,
        nft_contract_id: &AccountId,
        ft_token_id: &FungibleTokenId,
        token_id: &TokenId,
        bid: &Bid,
    ) -> (r: Result<(), MarketError>)
        requires
            old(self).wf(),
        ensures
            final(self).wf(),
            ({
                let listed = has_sale(old(self).market.sales@, nft_contract_id@, token_id@);
                let s0 = sale_at(old(self).market.sales@, nft_contract_id@, token_id@);
                let laddered = has_ladder(s0.bids@, ft_token_id@);
                let l0 = ladder_of(s0.bids@, ft_token_id@);
                let matched = ladder_has_match(l0, bid.owner_id@, bid.price);
                &&& (r == Err::<(), MarketError>(MarketError::NoSale) <==> !listed)
                &&& (r == Err::<(), MarketError>(MarketError::NoToken) <==> listed && !laddered)
                &&& (r == Err::<(), MarketError>(MarketError::NoSuchBid) <==> listed && laddered
                    && !matched)
                &&& (r is Ok <==> listed && laddered && matched)
            }),
            r is Err ==> *final(self) == *old(self),
            r is Ok ==> removed_bid_state(
                old(self).market,
                final(self).market,
                nft_contract_id@,
                token_id@,
                ft_token_id@,
                bid.owner_id@,
                bid.price,
            ),
            final(self).queued_transfers == old(self).queued_transfers,
    {
        let si = match crate::sale::find_sale(&self.market.sales, nft_contract_id, token_id) {
            None => { return Err(MarketError::NoSale); },
            Some(si) => si,
        };
        proof {
            lemma_sale_index(self.market.sales@, nft_contract_id@, token_id@, si as int);
        }
        let ghost sales0 = self.market.sales@;
        let ghost s0 = sales0[si as int];
        let li = match find_ladder(&self.market.sales[si].bids, ft_token_id) {
            None => { return Err(MarketError::NoToken); },
            Some(li) => li,
        };
        proof {
            lemma_ladder_index(s0.bids@, ft_token_id@, li as int);
        }
        let ghost l0 = s0.bids@[li as int].bids@;
        let mi = match find_bid_match(
            &self.market.sales[si].bids[li].bids,
            &bid.owner_id,
            bid.price,
        ) {
            None => { return Err(MarketError::NoSuchBid); },
            Some(mi) => mi,
        };
        proof {
            lemma_bid_match_index(l0, bid.owner_id@, bid.price, mi as int);
        }
        let mut sale = self.market.sales.remove(si);
        if sale.bids[li].bids.len() == 1 {
            sale.bids.remove(li);
        } else {
            let mut entry = sale.bids.remove(li);
            entry.bids.remove(mi);
            sale.bids.insert(li, entry);
            proof {
                assert(sale.bids@ =~= s0.bids@.update(li as int, sale.bids@[li as int]));
            }
        }
        self.market.sales.insert(si, sale);
        proof {
            assert(self.market.sales@ =~= sales0.update(si as int, self.market.sales@[si as int]));
            lemma_remove_sorted(l0, mi as int);
            let bids1 = self.market.sales@[si as int].bids@;
            if l0.len() == 1 {
                assert forall|p: int, q: int|
                    #![trigger bids1[p], bids1[q]]
                    0 <= p < q < bids1.len() implies bids1[p].ft_token_id@
                    != bids1[q].ft_token_id@ by {
                    let p0 = if p < li { p } else { p + 1 };
                    let q0 = if q < li { q } else { q + 1 };
                    assert(bids1[p] == s0.bids@[p0] && bids1[q] == s0.bids@[q0]);
                }
                assert(forall|k: int|
                    0 <= k < bids1.len() ==> #[trigger] bids1[k] == s0.bids@[
                        if k < li { k } else { k + 1 }
                    ]);
            }
            assert(crate::sale::market_sales_wf(self.market));
        }
        Ok(())
    }

    /// Withdraw one's own bid, against an attached deposit of exactly one
    /// indivisible unit; the bid is removed from its ladder and refunded.
    pub fn remove_bid(
        &mut self,
        nft_contract_id: AccountId,
        token_id: TokenId,
        ft_token_id: FungibleTokenId,
        bid: Bid,
        predecessor_id: AccountId,
        attached_deposit: u128,
    ) -> (r: Result<(), MarketError>)
        requires
            old(self).wf(),
        ensures
            final(self).wf(),
            ({
                let auth = attached_deposit == 1 && predecessor_id@ == bid.owner_id@;
                let listed = has_sale(old(self).market.sales@, nft_contract_id@, token_id@);
                let s0 = sale_at(old(self).market.sales@, nft_contract_id@, token_id@);
                let laddered = has_ladder(s0.bids@, ft_token_id@);
                let l0 = ladder_of(s0.bids@, ft_token_id@);
                let matched = ladder_has_match(l0, bid.owner_id@, bid.price);
                &&& (r == Err::<(), MarketError>(MarketError::OneYoctoRequired) <==>
                    attached_deposit != 1)
                &&& (r == Err::<(), MarketError>(MarketError::NotBidOwner) <==> attached_deposit
                    == 1 && predecessor_id@ != bid.owner_id@)
                &&& (r == Err::<(), MarketError>(MarketError::NoSale) <==> auth && !listed)
                &&& (r == Err::<(), MarketError>(MarketError::NoToken) <==> auth && listed
                    && !laddered)
                &&& (r == Err::<(), MarketError>(MarketError::NoSuchBid) <==> auth && listed
                    && laddered && !matched)
                &&& (r is Ok <==> auth && listed && laddered && matched)
            }),
            r is Err ==> *final(self) == *old(self),
            r is Ok ==> removed_bid_state(
                old(self).market,
                final(self).market,
                nft_contract_id@,
                token_id@,
                ft_token_id@,
                bid.owner_id@,
                bid.price,
            ) && final(self).queued_transfers@ == old(self).queued_transfers@.push(
                refund_of(ft_token_id, bid),
            ),
    {
        if attached_deposit != 1 {
            return Err(MarketError::OneYoctoRequired);
        }
        if !(predecessor_id == bid.owner_id) {
            return Err(MarketError::NotBidOwner);
        }
        match self.internal_remove_bid(&nft_contract_id, &ft_token_id, &token_id, &bid) {
            Err(e) => Err(e),
            Ok(()) => {
                self.refund_bid(ft_token_id, &bid);
                Ok(())
            },
        }
    }

    /// Force-cancel a bid whose validity window has closed: anyone may call
    /// this once `now` has reached the bid's end. The bid is removed from
    /// its ladder and refunded.
    pub fn cancel_bid(
        &mut self,
        nft_contract_id: AccountId,
        token_id: TokenId,
        ft_token_id: FungibleTokenId,
        bid: Bid,
        now: u64,
    ) -> (r: Result<(), MarketError>)
        requires
            old(self).wf(),
        ensures
            final(self).wf(),
            ({
                let ended = bid.end matches Some(e) && now >= e;
                let listed = has_sale(old(self).market.sales@, nft_contract_id@, token_id@);
                let s0 = sale_at(old(self).market.sales@, nft_contract_id@, token_id@);
                let laddered = has_ladder(s0.bids@, ft_token_id@);
                let l0 = ladder_of(s0.bids@, ft_token_id@);
                let matched = ladder_has_match(l0, bid.owner_id@, bid.price);
                &&& (r == Err::<(), MarketError>(MarketError::BidHasNoEnd) <==> bid.end is None)
                &&& (r == Err::<(), MarketError>(MarketError::BidNotEnded) <==> (
                    bid.end matches Some(e) && now < e))
                &&& (r == Err::<(), MarketError>(MarketError::NoSale) <==> ended && !listed)
                &&& (r == Err::<(), MarketError>(MarketError::NoToken) <==> ended && listed
                    && !laddered)
                &&& (r == Err::<(), MarketError>(MarketError::NoSuchBid) <==> ended && listed
                    && laddered && !matched)
                &&& (r is Ok <==> ended && listed && laddered && matched)
            }),
            r is Err ==> *final(self) == *old(self),
            r is Ok ==> removed_bid_state(
                old(self).market,
                final(self).market,
                nft_contract_id@,
                token_id@,
                ft_token_id@,
                bid.owner_id@,
                bid.price,
            ) && final(self).queued_transfers@ == old(self).queued_transfers@.push(
                refund_of(ft_token_id, bid),
            ),
    {
        match bid.end {
            None => { return Err(MarketError::BidHasNoEnd); },
            Some(e) => {
                if now < e {
                    return Err(MarketError::BidNotEnded);
                }
            },
        }
        match self.internal_remove_bid(&nft_contract_id, &ft_token_id, &token_id, &bid) {
            Err(e) => Err(e),
            Ok(()) => {
                self.refund_bid(ft_token_id, &bid);
                Ok(())
            },
        }
    }

    /// Sweep one ladder, removing and refunding every bid whose end time
    /// has elapsed by `now`; an emptied ladder leaves the listing.
    pub fn cancel_expired_bids(
        &mut self,
        nft_contract_id: AccountId,
        token_id: TokenId,
        ft_token_id: FungibleTokenId,
        now: u64,
    ) -> (r: Result<(), MarketError>)
        requires
            old(self).wf(),
        ensures
            final(self).wf(),
            ({
                let listed = has_sale(old(self).market.sales@, nft_contract_id@, token_id@);
                let s0 = sale_at(old(self).market.sales@, nft_contract_id@, token_id@);
                let laddered = has_ladder(s0.bids@, ft_token_id@);
                &&& (r == Err::<(), MarketError>(MarketError::NoSale) <==> !listed)
                &&& (r == Err::<(), MarketError>(MarketError::NoToken) <==> listed && !laddered)
                &&& (r is Ok <==> listed && laddered)
            }),
            r is Err ==> *final(self) == *old(self),
            r is Ok ==> ({
                let sales0 = old(self).market.sales@;
                let si = sale_index(sales0, nft_contract_id@, token_id@);
                let s0 = sales0[si];
                let li = ladder_index(s0.bids@, ft_token_id@);
                let l0 = ladder_of(s0.bids@, ft_token_id@);
                let kept = l0.filter(live_pred(now));
                let s1 = final(self).market.sales@[si];
                &&& same_except_sales(final(self).market, old(self).market)
                &&& final(self).market.sales@.len() == sales0.len()
                &&& (forall|k: int|
                    0 <= k < sales0.len() && k != si ==> final(self).market.sales@[k]
                        == sales0[k])
                &&& crate::sale::sale_same_except_bids(s1, s0)
                &&& (if kept.len() == 0 {
                    s1.bids@ == s0.bids@.remove(li)
                } else {
                    &&& s1.bids@.len() == s0.bids@.len()
                    &&& (forall|k: int|
                        0 <= k < s0.bids@.len() && k != li ==> s1.bids@[k] == s0.bids@[k])
                    &&& s1.bids@[li].ft_token_id == s0.bids@[li].ft_token_id
                    &&& s1.bids@[li].bids@ == kept
                })
                &&& final(self).queued_transfers@ == old(self).queued_transfers@
                    + ladder_refunds(ft_token_id, l0.filter(expired_pred(now)))
            }),
    {
        let si = match crate::sale::find_sale(&self.market.sales, &nft_contract_id, &token_id) {
            None => { return Err(MarketError::NoSale); },
            Some(si) => si,
        };
        proof {
            lemma_sale_index(self.market.sales@, nft_contract_id@, token_id@, si as int);
        }
        let ghost sales0 = self.market.sales@;
        let ghost s0 = sales0[si as int];
        let li = match find_ladder(&self.market.sales[si].bids, &ft_token_id) {
            None => { return Err(MarketError::NoToken); },
            Some(li) => li,
        };
        proof {
            lemma_ladder_index(s0.bids@, ft_token_id@, li as int);
        }
        let ghost q0 = self.queued_transfers@;
        let mut sale = self.market.sales.remove(si);
        let ghost m0 = self.market;
        let mut entry = sale.bids.remove(li);
        let ghost l0 = entry.bids@;
        let mut kept: Vec<Bid> = Vec::new();
        let n = entry.bids.len();
        let mut i: usize = 0;
        while i < n
            invariant
                i <= n,
                n == l0.len(),
                entry.bids@ == l0,
                kept@ == l0.take(i as int).filter(live_pred(now)),
                self.queued_transfers@ == q0 + ladder_refunds(
                    ft_token_id,
                    l0.take(i as int).filter(expired_pred(now)),
                ),
                self.market == m0,
            decreases n - i,
        {
            let b = &entry.bids[i];
            let expired = match b.end {
                Some(e) => now >= e,
                None => false,
            };
            proof {
                reveal(Seq::filter);
                assert(l0.take(i + 1).drop_last() =~= l0.take(i as int));
                assert(l0.take(i + 1).last() == l0[i as int]);
            }
            if expired {
                self.refund_bid(ft_token_id.clone(), b);
                proof {
                    let f0 = l0.take(i as int).filter(expired_pred(now));
                    let f1 = l0.take(i + 1).filter(expired_pred(now));
                    assert(f1 == f0.push(l0[i as int]));
                    assert(ladder_refunds(ft_token_id, f1) =~= ladder_refunds(
                        ft_token_id,
                        f0,
                    ).push(refund_of(ft_token_id, l0[i as int])));
                    assert(q0 + ladder_refunds(ft_token_id, f1) =~= (q0 + ladder_refunds(
                        ft_token_id,
                        f0,
                    )).push(refund_of(ft_token_id, l0[i as int])));
                }
            } else {
                kept.push(clone_bid(b));
            }
            i = i + 1;
        }
        proof {
            assert(l0.take(n as int) =~= l0);
        }
        if kept.len() > 0 {
            proof {
                lemma_filter_sorted(l0, live_pred(now));
                l0.lemma_filter_len(live_pred(now));
            }
            entry.bids = kept;
            sale.bids.insert(li, entry);
            proof {
                assert(sale.bids@ =~= s0.bids@.update(li as int, sale.bids@[li as int]));
            }
        } else {
            proof {
                assert(sale.bids@ =~= s0.bids@.remove(li as int));
                let bids1 = sale.bids@;
                assert forall|p: int, q: int|
                    #![trigger bids1[p], bids1[q]]
                    0 <= p < q < bids1.len() implies bids1[p].ft_token_id@
                    != bids1[q].ft_token_id@ by {
                    let p0 = if p < li { p } else { p + 1 };
                    let q0 = if q < li { q } else { q + 1 };
                    assert(bids1[p] == s0.bids@[p0] && bids1[q] == s0.bids@[q0]);
                }
                assert(forall|k: int|
                    0 <= k < bids1.len() ==> #[trigger] bids1[k] == s0.bids@[
                        if k < li { k } else { k + 1 }
                    ]);
            }
        }
        self.market.sales.insert(si, sale);
        proof {
            assert(self.market.sales@ =~= sales0.update(si as int, self.market.sales@[si as int]));
            assert(crate::sale::market_sales_wf(self.market));
        }
        Ok(())
    }
}

/// Find the ladder for `ft` in `bids`.
pub fn find_ladder(bids: &Bids, ft: &FungibleTokenId) -> (r: Option<usize>)
    ensures
        match r {
            Some(i) => i < bids@.len() && bids@[i as int].ft_token_id@ == ft@
                && has_ladder(bids@, ft@),
            None => !has_ladder(bids@, ft@),
        },
{
    let n = bids.len();
    let mut i: usize = 0;
    while i < n
        invariant
            i <= n,
            n == bids@.len(),
            forall|k: int| 0 <= k < i ==> #[trigger] bids@[k].ft_token_id@ != ft@,
        decreases n - i,
    {
        if bids[i].ft_token_id == *ft {
            return Some(i);
        }
        i = i + 1;
    }
    None
}

} // verus!
