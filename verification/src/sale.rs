//! Listings ("sales"), the listing store, and the two-phase purchase
//! settlement protocol.

use vstd::prelude::*;

use vstd::arithmetic::div_mod::{
    lemma_div_is_ordered, lemma_fundamental_div_mod, lemma_fundamental_div_mod_converse,
};

use crate::auction::{auctions_wf, AuctionEntry};
use crate::bid::{all_refunds, bids_wf, Bids};
use crate::{AccountId, FungibleTokenId, Market, MarketError, QueuedTransfer, TokenId,
    TokenSeriesId, FEE_DENOMINATOR, PROTOCOL_FEE};

verus! {

/// One asking price of a listing: the asset it is payable in and the amount.
#[derive(Clone, Debug)]
pub struct SaleCondition {
    pub ft_token_id: FungibleTokenId,
    pub price: u128,
}

/// The asking prices of a listing, keyed by payment asset.
pub type SaleConditions = Vec<SaleCondition>;

/// A fixed-price or bid-accepting listing of one token.
#[derive(Clone, Debug)]
pub struct Sale {
    pub owner_id: AccountId,
    pub approval_id: u64,
    pub nft_contract_id: AccountId,
    pub token_id: TokenId,
    pub sale_conditions: SaleConditions,
    pub bids: Bids,
    pub created_at: u64,
    pub token_type: Option<String>,
    pub start: Option<u64>,
    pub end: Option<u64>,
}

impl Sale {
    /// A sale accepts offers while `now` lies in `[start, end)`; either
    /// bound is open when absent.
    pub open spec fn spec_in_limits(self, now: u64) -> bool {
        &&& (self.start matches Some(s) ==> s <= now)
        &&& (self.end matches Some(e) ==> now < e)
    }

    /// Whether the sale accepts offers at time `now`.
    pub fn in_limits(&self, now: u64) -> (r: bool)
        ensures
            r == self.spec_in_limits(now),
    {
        let mut res = true;
        if let Some(start) = self.start {
            res = res && start <= now;
        }
        if let Some(end) = self.end {
            res = res && now < end;
        }
        res
    }

    /// Push the end of the sale out by `time`. Returns false, changing
    /// nothing, when the sale has no end to extend.
    pub fn extend(&mut self, time: u64) -> (r: bool)
        requires
            old(self).end matches Some(e) ==> e + time <= u64::MAX,
        ensures
            r == (old(self).end is Some),
            old(self).end matches Some(e) ==> *final(self) == (Sale {
                end: Some((e + time) as u64),
                ..*old(self)
            }),
            old(self).end is None ==> *final(self) == *old(self),
    {
        if let Some(end) = self.end {
            self.end = Some(end + time);
            true
        } else {
            false
        }
    }
}

/// A listing of a whole token series, sold copy by copy.
#[derive(Clone, Debug)]
pub struct SeriesSale {
    pub owner_id: AccountId,
    pub nft_contract_id: AccountId,
    pub series_id: TokenSeriesId,
    pub sale_conditions: SaleConditions,
    pub created_at: u64,
    pub copies: u64,
}

/// Client arguments naming one listing.
#[derive(Clone, Debug)]
pub struct PurchaseArgs {
    pub nft_contract_id: AccountId,
    pub token_id: TokenId,
}

/// One recipient of a payout split.
#[derive(Clone, Debug)]
pub struct PayoutEntry {
    pub account_id: AccountId,
    pub amount: u128,
}

/// The royalty split returned by the token contract for one sale: a mapping
/// from recipient to amount.
#[derive(Clone, Debug)]
pub struct Payout {
    pub payout: Vec<PayoutEntry>,
}

/// One account's pre-paid storage balance.
#[derive(Clone, Debug)]
pub struct StorageDeposit {
    pub account_id: AccountId,
    pub amount: u128,
}

/// The durable state of the market: the listing and auction stores, the
/// supported payment assets, and the storage ledger.
#[derive(Debug)]
pub struct MarketSales {
    pub owner_id: AccountId,
    pub sales: Vec<Sale>,
    pub series_sales: Vec<SeriesSale>,
    pub ft_token_ids: Vec<FungibleTokenId>,
    pub storage_deposits: Vec<StorageDeposit>,
    pub bid_history_length: u8,
    pub auctions: Vec<AuctionEntry>,
    pub next_auction_id: u128,
}

/// The phase-1 snapshot of a settlement: the asynchronous
/// transfer-token-and-compute-payout request to hand to the token contract,
/// together with the removed listing record that phase 2 needs.
#[derive(Clone, Debug)]
pub struct PurchaseRequest {
    pub nft_contract_id: AccountId,
    pub token_id: TokenId,
    pub approval_id: u64,
    pub ft_token_id: FungibleTokenId,
    pub buyer_id: AccountId,
    pub price: u128,
    pub sale: Sale,
}

/// What an offer did: started immediate settlement at the asking price, or
/// entered the attached deposit as a bid.
#[derive(Debug)]
pub enum OfferOutcome {
    PurchaseStarted(PurchaseRequest),
    BidPlaced,
}

/// `s1` is `s0` with the top (last) bid of the ladder of `ft` taken out;
/// an emptied ladder leaves the listing.
pub open spec fn sale_without_top_bid(s0: Sale, s1: Sale, ft: Seq<char>) -> bool {
    let li = crate::bid::ladder_index(s0.bids@, ft);
    let l0 = crate::bid::ladder_of(s0.bids@, ft);
    &&& sale_same_except_bids(s1, s0)
    &&& (if l0.len() == 1 {
        s1.bids@ == s0.bids@.remove(li)
    } else {
        &&& s1.bids@.len() == s0.bids@.len()
        &&& (forall|k: int| 0 <= k < s0.bids@.len() && k != li ==> s1.bids@[k] == s0.bids@[k])
        &&& s1.bids@[li].ft_token_id == s0.bids@[li].ft_token_id
        &&& s1.bids@[li].bids@ == l0.drop_last()
    })
}

/// The sum of all recipient amounts of a payout.
pub open spec fn payout_sum(entries: Seq<PayoutEntry>) -> int
    decreases entries.len(),
{
    if entries.len() == 0 {
        0
    } else {
        payout_sum(entries.drop_last()) + entries.last().amount
    }
}

/// Every recipient appears at most once.
pub open spec fn payout_keys_unique(entries: Seq<PayoutEntry>) -> bool {
    forall|p: int, q: int|
        #![trigger entries[p], entries[q]]
        0 <= p < q < entries.len() ==> entries[p].account_id@ != entries[q].account_id@
}

/// Whether the payout has an entry for recipient `a`.
pub open spec fn has_payout_for(entries: Seq<PayoutEntry>, a: Seq<char>) -> bool {
    exists|i: int| 0 <= i < entries.len() && #[trigger] entries[i].account_id@ == a
}

/// The index of recipient `a`'s entry (meaningful only when
/// `has_payout_for`).
pub open spec fn payout_index_of(entries: Seq<PayoutEntry>, a: Seq<char>) -> int {
    choose|i: int| 0 <= i < entries.len() && #[trigger] entries[i].account_id@ == a
}

/// The recipient amounts reconcile with the sale price: they do not exceed
/// it, and leave at most one indivisible unit of rounding remainder.
pub open spec fn payout_sum_ok(entries: Seq<PayoutEntry>, price: u128) -> bool {
    &&& payout_sum(entries) <= price
    &&& price - payout_sum(entries) <= 1
}

/// A payout is accepted only when it is non-empty, small enough that all
/// its transfers and all `n_ladders` bid refunds stay within a bounded
/// fan-out of ten, and its amounts reconcile with the price.
pub open spec fn payout_valid(p: Payout, price: u128, n_ladders: int) -> bool {
    &&& p.payout@.len() > 0
    &&& p.payout@.len() + n_ladders <= 10
    &&& payout_sum_ok(p.payout@, price)
}

/// The transfers that disburse the given payout entries in asset `ft`, in
/// order.
pub open spec fn payout_transfers(entries: Seq<PayoutEntry>, ft: AccountId) -> Seq<
    QueuedTransfer,
> {
    entries.map_values(
        |e: PayoutEntry| QueuedTransfer { receiver_id: e.account_id, amount: e.amount,
            ft_token_id: ft },
    )
}

/// How a failed settlement resolves: the removed listing's outstanding bids
/// are refunded regardless of the payout outcome (removal already happened
/// in phase 1, so nothing else ever could), then for a native-asset sale
/// the full price goes back to the buyer; for any other asset the price
/// stays for the generic failure-refund path of that asset's contract.
pub open spec fn failed_settlement(
    q0: Seq<QueuedTransfer>,
    q1: Seq<QueuedTransfer>,
    buyer_id: AccountId,
    ft_token_id: AccountId,
    price: u128,
    bids: Seq<crate::bid::TokenBids>,
) -> bool {
    &&& (ft_token_id@ == "near"@ ==> q1 == (q0 + all_refunds(bids)).push(
        (QueuedTransfer { receiver_id: buyer_id, amount: price, ft_token_id }),
    ))
    &&& (ft_token_id@ != "near"@ ==> q1 == q0 + all_refunds(bids))
}

/// `q1` extends `q0` with one native transfer of `amount` to `receiver`.
pub open spec fn pushed_native_transfer(
    q0: Seq<QueuedTransfer>,
    q1: Seq<QueuedTransfer>,
    receiver: Seq<char>,
    amount: u128,
) -> bool {
    &&& q1.len() == q0.len() + 1
    &&& q1.take(q0.len() as int) == q0
    &&& crate::bid::transfer_views(q1.last(), receiver, amount, "near"@)
}

/// `q1` extends `q0` with one native transfer per payout entry, in order.
pub open spec fn pushed_native_payout(
    q0: Seq<QueuedTransfer>,
    q1: Seq<QueuedTransfer>,
    entries: Seq<PayoutEntry>,
) -> bool {
    &&& q1.len() == q0.len() + entries.len()
    &&& q1.take(q0.len() as int) == q0
    &&& (forall|k: int|
        0 <= k < entries.len() ==> crate::bid::transfer_views(
            #[trigger] q1[q0.len() + k],
            entries[k].account_id@,
            entries[k].amount,
            "near"@,
        ))
}

/// With unique recipients, the index of a recipient's entry is the
/// position the entry stands at.
pub proof fn lemma_payout_index(entries: Seq<PayoutEntry>, a: Seq<char>, i: int)
    requires
        payout_keys_unique(entries),
        0 <= i < entries.len(),
        entries[i].account_id@ == a,
    ensures
        has_payout_for(entries, a),
        payout_index_of(entries, a) == i,
{
    assert(has_payout_for(entries, a)) by {
        assert(entries[i].account_id@ == a);
    }
    let j = payout_index_of(entries, a);
    assert(0 <= j < entries.len() && entries[j].account_id@ == a);
    if i < j {
        assert(entries[i].account_id@ != entries[j].account_id@);
    } else if j < i {
        assert(entries[j].account_id@ != entries[i].account_id@);
    }
}

/// Extending a payout prefix by one entry grows the sum by that entry's
/// amount.
pub proof fn lemma_payout_sum_step(entries: Seq<PayoutEntry>, i: int)
    requires
        0 <= i < entries.len(),
    ensures
        payout_sum(entries.take(i + 1)) == payout_sum(entries.take(i)) + entries[i].amount,
{
    assert(entries.take(i + 1).drop_last() =~= entries.take(i));
    assert(entries.take(i + 1).last() == entries[i]);
}

/// Amounts are non-negative, so every prefix sum bounds the full sum from
/// below.
pub proof fn lemma_payout_sum_prefix(entries: Seq<PayoutEntry>, k: int)
    requires
        0 <= k <= entries.len(),
    ensures
        payout_sum(entries.take(k)) <= payout_sum(entries),
    decreases entries.len() - k,
{
    if k == entries.len() {
        assert(entries.take(k) =~= entries);
    } else {
        lemma_payout_sum_step(entries, k);
        lemma_payout_sum_prefix(entries, k + 1);
    }
}

/// Whether the recipient amounts reconcile with the sale price.
pub fn check_payout_sum(p: &Payout, price: u128) -> (b: bool)
    ensures
        b == payout_sum_ok(p.payout@, price),
{
    let n = p.payout.len();
    let mut remainder = price;
    let mut i: usize = 0;
    while i < n
        invariant
            i <= n,
            n == p.payout@.len(),
            payout_sum(p.payout@.take(i as int)) == price - remainder,
        decreases n - i,
    {
        let amount = p.payout[i].amount;
        proof {
            lemma_payout_sum_step(p.payout@, i as int);
        }
        if amount > remainder {
            proof {
                lemma_payout_sum_prefix(p.payout@, i + 1);
            }
            return false;
        }
        remainder = remainder - amount;
        i = i + 1;
    }
    proof {
        assert(p.payout@.take(n as int) =~= p.payout@);
    }
    remainder <= 1
}

/// Find the index of recipient `a`'s payout entry.
pub fn find_payout_for(entries: &Vec<PayoutEntry>, a: &AccountId) -> (r: Option<usize>)
    ensures
        match r {
            Some(i) => i < entries@.len() && entries@[i as int].account_id@ == a@
                && has_payout_for(entries@, a@),
            None => !has_payout_for(entries@, a@),
        },
{
    let n = entries.len();
    let mut i: usize = 0;
    while i < n
        invariant
            i <= n,
            n == entries@.len(),
            forall|k: int| 0 <= k < i ==> #[trigger] entries@[k].account_id@ != a@,
        decreases n - i,
    {
        if entries[i].account_id == *a {
            return Some(i);
        }
        i = i + 1;
    }
    None
}

/// Accept or reject the payout a token contract returned for a sale of
/// `price` with `n_ladders` outstanding bid ladders; a rejected payout
/// makes settlement fall back to refunding the buyer.
pub fn validate_payout(payout: Payout, price: u128, n_ladders: usize) -> (r: Option<Payout>)
    ensures
        r matches Some(p) ==> p == payout,
        r is Some <==> payout_valid(payout, price, n_ladders as int),
{
    if payout.payout.len() == 0 {
        return None;
    }
    if payout.payout.len() as u128 + n_ladders as u128 > 10 {
        return None;
    }
    if !check_payout_sum(&payout, price) {
        return None;
    }
    Some(payout)
}

/// The protocol's cut of a sale at `price`: `PROTOCOL_FEE` basis points,
/// rounded down.
pub open spec fn protocol_fee_of(price: u128) -> int {
    price as int * PROTOCOL_FEE as int / FEE_DENOMINATOR as int
}

/// Compute the protocol fee without overflowing, by splitting the price at
/// the fee denominator.
pub fn protocol_fee(price: u128) -> (r: u128)
    ensures
        r == protocol_fee_of(price),
        r <= price,
{
    let q = price / FEE_DENOMINATOR;
    let m = price % FEE_DENOMINATOR;
    proof {
        lemma_fundamental_div_mod(price as int, FEE_DENOMINATOR as int);
        lemma_div_is_ordered(price as int, u128::MAX as int, FEE_DENOMINATOR as int);
    }
    let part1 = q * PROTOCOL_FEE;
    let part2 = (m * PROTOCOL_FEE) / FEE_DENOMINATOR;
    proof {
        let d = FEE_DENOMINATOR as int;
        let f = PROTOCOL_FEE as int;
        let a = q as int * f;
        let b = m as int * f;
        assert(price as int * f == d * a + b) by (nonlinear_arith)
            requires
                price as int == d * (q as int) + m as int,
                a == q as int * f,
                b == m as int * f,
                d == 10_000,
                f == 300,
        ;
        lemma_fundamental_div_mod(b, d);
        let k = b / d;
        let rr = b % d;
        assert(d * a + b == d * (a + k) + rr) by (nonlinear_arith)
            requires
                b == d * k + rr,
        ;
        lemma_fundamental_div_mod_converse(d * a + b, d, a + k, rr);
        assert((d * a + b) / d == a + k);
        assert(part1 + part2 == a + k);
        // the fee never exceeds the price
        assert(a + k <= price) by (nonlinear_arith)
            requires
                price as int == d * (q as int) + m as int,
                a == q as int * f,
                b == m as int * f,
                k == b / d,
                rr == b % d,
                b == d * k + rr,
                0 <= rr < d,
                0 <= m < d,
                q >= 0,
                d == 10_000,
                f == 300,
        ;
    }
    part1 + part2
}

/// Whether `s` is the listing of token `t` of contract `c`.
pub open spec fn sale_key_is(s: Sale, c: Seq<char>, t: Seq<char>) -> bool {
    s.nft_contract_id@ == c && s.token_id@ == t
}

/// Whether the store holds a listing of token `t` of contract `c`.
pub open spec fn has_sale(sales: Seq<Sale>, c: Seq<char>, t: Seq<char>) -> bool {
    exists|i: int| 0 <= i < sales.len() && sale_key_is(#[trigger] sales[i], c, t)
}

/// The index of the listing of token `t` of contract `c` (meaningful only
/// when `has_sale`).
pub open spec fn sale_index(sales: Seq<Sale>, c: Seq<char>, t: Seq<char>) -> int {
    choose|i: int| 0 <= i < sales.len() && sale_key_is(#[trigger] sales[i], c, t)
}

/// The stored listing of token `t` of contract `c` (meaningful only when
/// `has_sale`).
pub open spec fn sale_at(sales: Seq<Sale>, c: Seq<char>, t: Seq<char>) -> Sale {
    sales[sale_index(sales, c, t)]
}

/// Whether the conditions list carries an asking price in asset `ft`.
pub open spec fn has_condition(conds: Seq<SaleCondition>, ft: Seq<char>) -> bool {
    exists|i: int| 0 <= i < conds.len() && #[trigger] conds[i].ft_token_id@ == ft
}

/// The index of the asking price in asset `ft` (meaningful only when
/// `has_condition`).
pub open spec fn condition_index(conds: Seq<SaleCondition>, ft: Seq<char>) -> int {
    choose|i: int| 0 <= i < conds.len() && #[trigger] conds[i].ft_token_id@ == ft
}

/// The asking price in asset `ft` (meaningful only when `has_condition`).
pub open spec fn condition_price(conds: Seq<SaleCondition>, ft: Seq<char>) -> u128 {
    conds[condition_index(conds, ft)].price
}

/// Whether `s` is the series listing of series `sid` of contract `c`.
pub open spec fn series_key_is(s: SeriesSale, c: Seq<char>, sid: Seq<char>) -> bool {
    s.nft_contract_id@ == c && s.series_id@ == sid
}

/// Whether the store holds a listing of series `sid` of contract `c`.
pub open spec fn has_series_sale(series: Seq<SeriesSale>, c: Seq<char>, sid: Seq<char>) -> bool {
    exists|i: int| 0 <= i < series.len() && series_key_is(#[trigger] series[i], c, sid)
}

/// The index of the series listing (meaningful only when `has_series_sale`).
pub open spec fn series_sale_index(series: Seq<SeriesSale>, c: Seq<char>, sid: Seq<char>) -> int {
    choose|i: int| 0 <= i < series.len() && series_key_is(#[trigger] series[i], c, sid)
}

/// A well-formed listing: unique condition keys and well-formed bid ladders
/// bounded by `cap`.
pub open spec fn sale_wf(s: Sale, cap: int) -> bool {
    &&& forall|i: int, j: int|
        #![trigger s.sale_conditions@[i], s.sale_conditions@[j]]
        0 <= i < j < s.sale_conditions@.len()
            ==> s.sale_conditions@[i].ft_token_id@ != s.sale_conditions@[j].ft_token_id@
    &&& bids_wf(s.bids@, cap)
}

/// Whether a membership list holds the account `x`.
pub open spec fn id_listed(ids: Seq<AccountId>, x: Seq<char>) -> bool {
    exists|i: int| 0 <= i < ids.len() && #[trigger] ids[i]@ == x
}

/// Whether the storage ledger has an entry for `a`.
pub open spec fn has_storage_deposit(deposits: Seq<StorageDeposit>, a: Seq<char>) -> bool {
    exists|i: int| 0 <= i < deposits.len() && #[trigger] deposits[i].account_id@ == a
}

/// The index of `a`'s ledger entry (meaningful only when
/// `has_storage_deposit`).
pub open spec fn storage_deposit_index(deposits: Seq<StorageDeposit>, a: Seq<char>) -> int {
    choose|i: int| 0 <= i < deposits.len() && #[trigger] deposits[i].account_id@ == a
}

/// The storage balance of `a`: its ledger entry, or zero without one.
pub open spec fn storage_balance_of(deposits: Seq<StorageDeposit>, a: Seq<char>) -> u128 {
    if has_storage_deposit(deposits, a) {
        deposits[storage_deposit_index(deposits, a)].amount
    } else {
        0
    }
}

/// Well-formedness of the whole durable state: unique keys in every store
/// and ledger, a positive ladder bound, and well-formed listings and
/// auctions.
pub open spec fn market_sales_wf(m: MarketSales) -> bool {
    &&& m.bid_history_length >= 1
    &&& forall|i: int, j: int|
        #![trigger m.sales@[i], m.sales@[j]]
        0 <= i < j < m.sales@.len()
            ==> !(m.sales@[i].nft_contract_id@ == m.sales@[j].nft_contract_id@
                && m.sales@[i].token_id@ == m.sales@[j].token_id@)
    &&& forall|i: int|
        0 <= i < m.sales@.len() ==> sale_wf(#[trigger] m.sales@[i], m.bid_history_length as int)
    &&& forall|i: int, j: int|
        #![trigger m.series_sales@[i], m.series_sales@[j]]
        0 <= i < j < m.series_sales@.len()
            ==> !(m.series_sales@[i].nft_contract_id@ == m.series_sales@[j].nft_contract_id@
                && m.series_sales@[i].series_id@ == m.series_sales@[j].series_id@)
    &&& forall|i: int, j: int|
        #![trigger m.ft_token_ids@[i], m.ft_token_ids@[j]]
        0 <= i < j < m.ft_token_ids@.len() ==> m.ft_token_ids@[i]@ != m.ft_token_ids@[j]@
    &&& forall|i: int, j: int|
        #![trigger m.storage_deposits@[i], m.storage_deposits@[j]]
        0 <= i < j < m.storage_deposits@.len()
            ==> m.storage_deposits@[i].account_id@ != m.storage_deposits@[j].account_id@
    &&& auctions_wf(m.auctions@, m.next_auction_id)
}

/// The two states agree on everything but the listing store: the series
/// store, asset set, ledger, ladder bound and auction table are untouched.
pub open spec fn same_except_sales(a: MarketSales, b: MarketSales) -> bool {
    &&& a.owner_id == b.owner_id
    &&& a.series_sales == b.series_sales
    &&& a.ft_token_ids == b.ft_token_ids
    &&& a.storage_deposits == b.storage_deposits
    &&& a.bid_history_length == b.bid_history_length
    &&& a.auctions == b.auctions
    &&& a.next_auction_id == b.next_auction_id
}

/// The two states agree on everything but the auction table and the next
/// auction id.
pub open spec fn same_except_auctions(a: MarketSales, b: MarketSales) -> bool {
    &&& a.owner_id == b.owner_id
    &&& a.sales == b.sales
    &&& a.series_sales == b.series_sales
    &&& a.ft_token_ids == b.ft_token_ids
    &&& a.storage_deposits == b.storage_deposits
    &&& a.bid_history_length == b.bid_history_length
}

/// The two listings agree on everything but their bid ladders.
pub open spec fn sale_same_except_bids(a: Sale, b: Sale) -> bool {
    &&& a.owner_id == b.owner_id
    &&& a.approval_id == b.approval_id
    &&& a.nft_contract_id == b.nft_contract_id
    &&& a.token_id == b.token_id
    &&& a.sale_conditions == b.sale_conditions
    &&& a.created_at == b.created_at
    &&& a.token_type == b.token_type
    &&& a.start == b.start
    &&& a.end == b.end
}

/// With unique listing keys, the index of a listing's key is the position
/// the listing stands at.
pub proof fn lemma_sale_index(sales: Seq<Sale>, c: Seq<char>, t: Seq<char>, i: int)
    requires
        forall|p: int, q: int|
            #![trigger sales[p], sales[q]]
            0 <= p < q < sales.len()
                ==> !(sales[p].nft_contract_id@ == sales[q].nft_contract_id@
                    && sales[p].token_id@ == sales[q].token_id@),
        0 <= i < sales.len(),
        sale_key_is(sales[i], c, t),
    ensures
        has_sale(sales, c, t),
        sale_index(sales, c, t) == i,
        sale_at(sales, c, t) == sales[i],
{
    assert(has_sale(sales, c, t)) by {
        assert(sale_key_is(sales[i], c, t));
    }
    let j = sale_index(sales, c, t);
    assert(0 <= j < sales.len() && sale_key_is(sales[j], c, t));
    if i < j {
        assert(!(sales[i].nft_contract_id@ == sales[j].nft_contract_id@
            && sales[i].token_id@ == sales[j].token_id@));
    } else if j < i {
        assert(!(sales[j].nft_contract_id@ == sales[i].nft_contract_id@
            && sales[j].token_id@ == sales[i].token_id@));
    }
}

/// With unique series keys, the index of a series listing's key is the
/// position the listing stands at.
pub proof fn lemma_series_index(series: Seq<SeriesSale>, c: Seq<char>, sid: Seq<char>, i: int)
    requires
        forall|p: int, q: int|
            #![trigger series[p], series[q]]
            0 <= p < q < series.len()
                ==> !(series[p].nft_contract_id@ == series[q].nft_contract_id@
                    && series[p].series_id@ == series[q].series_id@),
        0 <= i < series.len(),
        series_key_is(series[i], c, sid),
    ensures
        has_series_sale(series, c, sid),
        series_sale_index(series, c, sid) == i,
{
    assert(has_series_sale(series, c, sid)) by {
        assert(series_key_is(series[i], c, sid));
    }
    let j = series_sale_index(series, c, sid);
    assert(0 <= j < series.len() && series_key_is(series[j], c, sid));
    if i < j {
        assert(!(series[i].nft_contract_id@ == series[j].nft_contract_id@
            && series[i].series_id@ == series[j].series_id@));
    } else if j < i {
        assert(!(series[j].nft_contract_id@ == series[i].nft_contract_id@
            && series[j].series_id@ == series[i].series_id@));
    }
}

/// With unique ledger keys, the index of an account's entry is the position
/// the entry stands at.
pub proof fn lemma_storage_deposit_index(deposits: Seq<StorageDeposit>, a: Seq<char>, i: int)
    requires
        forall|p: int, q: int|
            #![trigger deposits[p], deposits[q]]
            0 <= p < q < deposits.len() ==> deposits[p].account_id@ != deposits[q].account_id@,
        0 <= i < deposits.len(),
        deposits[i].account_id@ == a,
    ensures
        has_storage_deposit(deposits, a),
        storage_deposit_index(deposits, a) == i,
        storage_balance_of(deposits, a) == deposits[i].amount,
{
    assert(has_storage_deposit(deposits, a)) by {
        assert(deposits[i].account_id@ == a);
    }
    let j = storage_deposit_index(deposits, a);
    assert(0 <= j < deposits.len() && deposits[j].account_id@ == a);
    if i < j {
        assert(deposits[i].account_id@ != deposits[j].account_id@);
    } else if j < i {
        assert(deposits[j].account_id@ != deposits[i].account_id@);
    }
}

/// With unique condition keys, the index of a condition's key is the
/// position the condition stands at.
pub proof fn lemma_condition_index(conds: Seq<SaleCondition>, ft: Seq<char>, i: int)
    requires
        forall|p: int, q: int|
            #![trigger conds[p], conds[q]]
            0 <= p < q < conds.len() ==> conds[p].ft_token_id@ != conds[q].ft_token_id@,
        0 <= i < conds.len(),
        conds[i].ft_token_id@ == ft,
    ensures
        has_condition(conds, ft),
        condition_index(conds, ft) == i,
        condition_price(conds, ft) == conds[i].price,
{
    assert(has_condition(conds, ft)) by {
        assert(conds[i].ft_token_id@ == ft);
    }
    let j = condition_index(conds, ft);
    assert(0 <= j < conds.len() && conds[j].ft_token_id@ == ft);
    if i < j {
        assert(conds[i].ft_token_id@ != conds[j].ft_token_id@);
    } else if j < i {
        assert(conds[j].ft_token_id@ != conds[i].ft_token_id@);
    }
}

/// Taking one listing out of a well-formed store leaves it well formed.
pub proof fn lemma_sales_remove_keeps_wf(m0: MarketSales, m1: MarketSales, si: int)
    requires
        market_sales_wf(m0),
        0 <= si < m0.sales@.len(),
        m1.sales@ == m0.sales@.remove(si),
        same_except_sales(m1, m0),
    ensures
        market_sales_wf(m1),
{
    let s0 = m0.sales@;
    let s1 = m1.sales@;
    assert forall|p: int, q: int|
        #![trigger s1[p], s1[q]]
        0 <= p < q < s1.len() implies !(s1[p].nft_contract_id@ == s1[q].nft_contract_id@
        && s1[p].token_id@ == s1[q].token_id@) by {
        let p0 = if p < si { p } else { p + 1 };
        let q0 = if q < si { q } else { q + 1 };
        assert(s1[p] == s0[p0] && s1[q] == s0[q0]);
    }
    assert forall|k: int| 0 <= k < s1.len() implies sale_wf(
        #[trigger] s1[k],
        m1.bid_history_length as int,
    ) by {
        let k0 = if k < si { k } else { k + 1 };
        assert(s1[k] == s0[k0]);
        assert(sale_wf(s0[k0], m0.bid_history_length as int));
    }
}

impl Market {
    /// Take the listing of token `token_id` of `nft_contract_id` out of the
    /// store and hand it to the caller; removal is the only way a listing
    /// leaves the store, so the caller can refund its outstanding bids.
    pub(crate) fn internal_remove_sale(
        &mut self,
        nft_contract_id: &AccountId,
        token_id: &TokenId,
    ) -> (r: Result<Sale, MarketError>)
        requires
            old(self).wf(),
        ensures
            final(self).wf(),
            final(self).queued_transfers == old(self).queued_transfers,
            ({
                let listed = has_sale(old(self).market.sales@, nft_contract_id@, token_id@);
                &&& (r is Ok <==> listed)
                &&& (r is Err <==> !listed)
                &&& (r is Err ==> r == Err::<Sale, MarketError>(MarketError::NoSale)
                    && *final(self) == *old(self))
                &&& (r matches Ok(s) ==> {
                    let sales0 = old(self).market.sales@;
                    let si = sale_index(sales0, nft_contract_id@, token_id@);
                    &&& s == sales0[si]
                    &&& final(self).market.sales@ == sales0.remove(si)
                    &&& same_except_sales(final(self).market, old(self).market)
                })
            }),
    {
        let si = match find_sale(&self.market.sales, nft_contract_id, token_id) {
            None => { return Err(MarketError::NoSale); },
            Some(si) => si,
        };
        proof {
            lemma_sale_index(self.market.sales@, nft_contract_id@, token_id@, si as int);
        }
        let ghost m0 = self.market;
        let sale = self.market.sales.remove(si);
        proof {
            lemma_sales_remove_keeps_wf(m0, self.market, si as int);
        }
        Ok(sale)
    }

    /// A seller takes their own listing down, against an attached deposit
    /// of exactly one indivisible unit; every outstanding bid on it is
    /// refunded.
    pub fn remove_sale(
        &mut self,
        nft_contract_id: AccountId,
        token_id: TokenId,
        predecessor_id: AccountId,
        attached_deposit: u128,
    ) -> (r: Result<(), MarketError>)
        requires
            old(self).wf(),
        ensures
            final(self).wf(),
            ({
                let listed = has_sale(old(self).market.sales@, nft_contract_id@, token_id@);
                let s0 = sale_at(old(self).market.sales@, nft_contract_id@, token_id@);
                &&& (r == Err::<(), MarketError>(MarketError::OneYoctoRequired) <==>
                    attached_deposit != 1)
                &&& (r == Err::<(), MarketError>(MarketError::NoSale) <==> attached_deposit == 1
                    && !listed)
                &&& (r == Err::<(), MarketError>(MarketError::NotSaleOwner) <==>
                    attached_deposit == 1 && listed && predecessor_id@ != s0.owner_id@)
                &&& (r is Ok <==> attached_deposit == 1 && listed && predecessor_id@
                    == s0.owner_id@)
            }),
            r is Err ==> *final(self) == *old(self),
            r is Ok ==> ({
                let sales0 = old(self).market.sales@;
                let si = sale_index(sales0, nft_contract_id@, token_id@);
                &&& final(self).market.sales@ == sales0.remove(si)
                &&& same_except_sales(final(self).market, old(self).market)
                &&& final(self).queued_transfers@ == old(self).queued_transfers@ + all_refunds(
                    sales0[si].bids@,
                )
            }),
    {
        if attached_deposit != 1 {
            return Err(MarketError::OneYoctoRequired);
        }
        let si = match find_sale(&self.market.sales, &nft_contract_id, &token_id) {
            None => { return Err(MarketError::NoSale); },
            Some(si) => si,
        };
        proof {
            lemma_sale_index(self.market.sales@, nft_contract_id@, token_id@, si as int);
        }
        if !(predecessor_id == self.market.sales[si].owner_id) {
            return Err(MarketError::NotSaleOwner);
        }
        let ghost m0 = self.market;
        let sale = self.market.sales.remove(si);
        proof {
            lemma_sales_remove_keeps_wf(m0, self.market, si as int);
        }
        self.refund_all_bids(&sale.bids);
        Ok(())
    }

    /// A seller sets or changes the asking price of their listing in one
    /// payment asset, against an attached deposit of exactly one
    /// indivisible unit.
    pub fn update_price(
        &mut self,
        nft_contract_id: AccountId,
        token_id: TokenId,
        ft_token_id: FungibleTokenId,
        price: u128,
        predecessor_id: AccountId,
        attached_deposit: u128,
    ) -> (r: Result<(), MarketError>)
        requires
            old(self).wf(),
        ensures
            final(self).wf(),
            ({
                let listed = has_sale(old(self).market.sales@, nft_contract_id@, token_id@);
                let s0 = sale_at(old(self).market.sales@, nft_contract_id@, token_id@);
                let owner_ok = predecessor_id@ == s0.owner_id@;
                let supported = id_listed(old(self).market.ft_token_ids@, ft_token_id@);
                &&& (r == Err::<(), MarketError>(MarketError::OneYoctoRequired) <==>
                    attached_deposit != 1)
                &&& (r == Err::<(), MarketError>(MarketError::NoSale) <==> attached_deposit == 1
                    && !listed)
                &&& (r == Err::<(), MarketError>(MarketError::NotSaleOwner) <==>
                    attached_deposit == 1 && listed && !owner_ok)
                &&& (r == Err::<(), MarketError>(MarketError::TokenNotSupported) <==>
                    attached_deposit == 1 && listed && owner_ok && !supported)
                &&& (r is Ok <==> attached_deposit == 1 && listed && owner_ok && supported)
            }),
            r is Err ==> *final(self) == *old(self),
            r is Ok ==> ({
                let sales0 = old(self).market.sales@;
                let si = sale_index(sales0, nft_contract_id@, token_id@);
                let s0 = sales0[si];
                let c0 = s0.sale_conditions@;
                let s1 = final(self).market.sales@[si];
                &&& same_except_sales(final(self).market, old(self).market)
                &&& final(self).market.sales@.len() == sales0.len()
                &&& (forall|k: int|
                    0 <= k < sales0.len() && k != si ==> final(self).market.sales@[k]
                        == sales0[k])
                &&& s1.owner_id == s0.owner_id
                &&& s1.approval_id == s0.approval_id
                &&& s1.nft_contract_id == s0.nft_contract_id
                &&& s1.token_id == s0.token_id
                &&& s1.bids == s0.bids
                &&& s1.created_at == s0.created_at
                &&& s1.token_type == s0.token_type
                &&& s1.start == s0.start
                &&& s1.end == s0.end
                &&& (if has_condition(c0, ft_token_id@) {
                    s1.sale_conditions@ == c0.update(
                        condition_index(c0, ft_token_id@),
                        (SaleCondition { ft_token_id, price }),
                    )
                } else {
                    s1.sale_conditions@ == c0.push((SaleCondition { ft_token_id, price }))
                })
                &&& final(self).queued_transfers == old(self).queued_transfers
            }),
    {
        if attached_deposit != 1 {
            return Err(MarketError::OneYoctoRequired);
        }
        let si = match find_sale(&self.market.sales, &nft_contract_id, &token_id) {
            None => { return Err(MarketError::NoSale); },
            Some(si) => si,
        };
        proof {
            lemma_sale_index(self.market.sales@, nft_contract_id@, token_id@, si as int);
        }
        if !(predecessor_id == self.market.sales[si].owner_id) {
            return Err(MarketError::NotSaleOwner);
        }
        if !ids_contain(&self.market.ft_token_ids, &ft_token_id) {
            return Err(MarketError::TokenNotSupported);
        }
        let ghost sales0 = self.market.sales@;
        let ghost s0 = sales0[si as int];
        let mut sale = self.market.sales.remove(si);
        match find_condition(&sale.sale_conditions, &ft_token_id) {
            Some(ci) => {
                proof {
                    lemma_condition_index(s0.sale_conditions@, ft_token_id@, ci as int);
                }
                sale.sale_conditions[ci] = SaleCondition { ft_token_id, price };
            },
            None => {
                sale.sale_conditions.push(SaleCondition { ft_token_id, price });
            },
        }
        self.market.sales.insert(si, sale);
        proof {
            assert(self.market.sales@ =~= sales0.update(si as int, self.market.sales@[si as int]));
            let c1 = self.market.sales@[si as int].sale_conditions@;
            assert forall|p: int, q: int|
                #![trigger c1[p], c1[q]]
                0 <= p < q < c1.len() implies c1[p].ft_token_id@ != c1[q].ft_token_id@ by {
                if has_condition(s0.sale_conditions@, ft_token_id@) {
                    let ci = condition_index(s0.sale_conditions@, ft_token_id@);
                    assert(s0.sale_conditions@[ci].ft_token_id@ == ft_token_id@);
                    if p != ci {
                        assert(c1[p] == s0.sale_conditions@[p]);
                    }
                    if q != ci {
                        assert(c1[q] == s0.sale_conditions@[q]);
                    }
                } else {
                    if q < c1.len() - 1 {
                        assert(c1[p] == s0.sale_conditions@[p]
                            && c1[q] == s0.sale_conditions@[q]);
                    } else {
                        assert(c1[p] == s0.sale_conditions@[p]);
                        assert(!has_condition(s0.sale_conditions@, ft_token_id@));
                    }
                }
            }
            assert(market_sales_wf(self.market));
        }
        Ok(())
    }

    /// A buyer's payable entry point on a listing, in the native currency.
    /// An attached deposit equal to the asking price starts immediate
    /// settlement; any other positive deposit is entered as a bid with the
    /// given validity window.
    pub fn offer(
        &mut self,
        nft_contract_id: AccountId,
        token_id: TokenId,
        start: Option<u64>,
        end: Option<u64>,
        buyer_id: AccountId,
        attached_deposit: u128,
        now: u64,
    ) -> (r: Result<OfferOutcome, MarketError>)
        requires
            old(self).wf(),
        ensures
            final(self).wf(),
            ({
                let listed = has_sale(old(self).market.sales@, nft_contract_id@, token_id@);
                let s0 = sale_at(old(self).market.sales@, nft_contract_id@, token_id@);
                let in_lim = s0.spec_in_limits(now);
                let own = s0.owner_id@ == buyer_id@;
                let near_cond = has_condition(s0.sale_conditions@, "near"@);
                let ask = condition_price(s0.sale_conditions@, "near"@);
                let pre_ok = listed && in_lim && !own && near_cond && attached_deposit > 0;
                let near_sup = crate::sale::id_listed(old(self).market.ft_token_ids@, "near"@);
                let laddered = crate::bid::has_ladder(s0.bids@, "near"@);
                let l0 = crate::bid::ladder_of(s0.bids@, "near"@);
                &&& (r == Err::<OfferOutcome, MarketError>(MarketError::NoSale) <==> !listed)
                &&& (r == Err::<OfferOutcome, MarketError>(MarketError::SaleNotInProgress) <==>
                    listed && !in_lim)
                &&& (r == Err::<OfferOutcome, MarketError>(MarketError::CannotBidOnOwnSale) <==>
                    listed && in_lim && own)
                &&& (r == Err::<OfferOutcome, MarketError>(MarketError::NotForSaleInNear) <==>
                    listed && in_lim && !own && !near_cond)
                &&& (r == Err::<OfferOutcome, MarketError>(MarketError::ZeroDeposit) <==> listed
                    && in_lim && !own && near_cond && attached_deposit == 0)
                &&& (r matches Ok(o) && o is PurchaseStarted <==> pre_ok && attached_deposit
                    == ask)
                &&& (r == Err::<OfferOutcome, MarketError>(MarketError::TokenNotSupported) <==>
                    pre_ok && attached_deposit != ask && !near_sup)
                &&& (r == Err::<OfferOutcome, MarketError>(MarketError::BidTooLow) <==> pre_ok
                    && attached_deposit != ask && near_sup && laddered && attached_deposit
                    <= l0.last().price)
                &&& (r matches Ok(o) && o is BidPlaced <==> pre_ok && attached_deposit != ask
                    && near_sup && (laddered ==> attached_deposit > l0.last().price))
            }),
            r is Err ==> *final(self) == *old(self),
            r matches Ok(OfferOutcome::PurchaseStarted(req)) ==> ({
                let sales0 = old(self).market.sales@;
                let si = sale_index(sales0, nft_contract_id@, token_id@);
                let s0 = sales0[si];
                &&& final(self).market.sales@ == sales0.remove(si)
                &&& same_except_sales(final(self).market, old(self).market)
                &&& final(self).queued_transfers == old(self).queued_transfers
                &&& req.nft_contract_id == nft_contract_id
                &&& req.token_id == token_id
                &&& req.approval_id == s0.approval_id
                &&& req.ft_token_id@ == "near"@
                &&& req.buyer_id == buyer_id
                &&& req.price == attached_deposit
                &&& req.sale == s0
            }),
            r matches Ok(OfferOutcome::BidPlaced) ==> crate::bid::added_bid_state(
                old(self).market,
                final(self).market,
                old(self).queued_transfers@,
                final(self).queued_transfers@,
                nft_contract_id@,
                token_id@,
                "near"@,
                (crate::bid::Bid { owner_id: buyer_id, price: attached_deposit, start, end }),
            ),
    {
        let si = match find_sale(&self.market.sales, &nft_contract_id, &token_id) {
            None => { return Err(MarketError::NoSale); },
            Some(si) => si,
        };
        proof {
            lemma_sale_index(self.market.sales@, nft_contract_id@, token_id@, si as int);
        }
        let in_lim = self.market.sales[si].in_limits(now);
        if !in_lim {
            return Err(MarketError::SaleNotInProgress);
        }
        if self.market.sales[si].owner_id == buyer_id {
            return Err(MarketError::CannotBidOnOwnSale);
        }
        let near = String::from_str("near");
        let ci = match find_condition(&self.market.sales[si].sale_conditions, &near) {
            None => { return Err(MarketError::NotForSaleInNear); },
            Some(ci) => ci,
        };
        proof {
            lemma_condition_index(
                self.market.sales@[si as int].sale_conditions@,
                "near"@,
                ci as int,
            );
        }
        let ask = self.market.sales[si].sale_conditions[ci].price;
        if attached_deposit == 0 {
            return Err(MarketError::ZeroDeposit);
        }
        if attached_deposit == ask {
            match self.process_purchase(
                nft_contract_id,
                token_id,
                near,
                attached_deposit,
                buyer_id,
            ) {
                Ok(req) => Ok(OfferOutcome::PurchaseStarted(req)),
                Err(e) => Err(e),
            }
        } else {
            match self.add_bid(
                nft_contract_id,
                token_id,
                attached_deposit,
                near,
                buyer_id,
                start,
                end,
            ) {
                Ok(()) => Ok(OfferOutcome::BidPlaced),
                Err(e) => Err(e),
            }
        }
    }

    /// The seller side of the bid flow: the sale's owner (and nobody else)
    /// accepts the top bid of one ladder.
    /// The bid is consumed, the listing leaves the store, and settlement
    /// phase 1 starts at the bid's price with the bid's owner as buyer; the
    /// rest of the ladder stays with the removed listing snapshot so phase
    /// 2 can refund it.
    pub fn accept_offer(
        &mut self,
        nft_contract_id: AccountId,
        token_id: TokenId,
        ft_token_id: FungibleTokenId,
        predecessor_id: AccountId,
        now: u64,
    ) -> (r: Result<PurchaseRequest, MarketError>)
        requires
            old(self).wf(),
        ensures
            final(self).wf(),
            ({
                let listed = has_sale(old(self).market.sales@, nft_contract_id@, token_id@);
                let s0 = sale_at(old(self).market.sales@, nft_contract_id@, token_id@);
                let in_lim = s0.spec_in_limits(now);
                let owner_ok = predecessor_id@ == s0.owner_id@;
                let laddered = crate::bid::has_ladder(s0.bids@, ft_token_id@);
                let l0 = crate::bid::ladder_of(s0.bids@, ft_token_id@);
                let top_ok = l0.last().spec_in_limits(now);
                &&& (r == Err::<PurchaseRequest, MarketError>(MarketError::NoSale) <==> !listed)
                &&& (r == Err::<PurchaseRequest, MarketError>(MarketError::SaleNotInProgress)
                    <==> listed && !in_lim)
                &&& (r == Err::<PurchaseRequest, MarketError>(MarketError::NotSaleOwner) <==>
                    listed && in_lim && !owner_ok)
                &&& (r == Err::<PurchaseRequest, MarketError>(MarketError::NoBids) <==> listed
                    && in_lim && owner_ok && !laddered)
                &&& (r == Err::<PurchaseRequest, MarketError>(MarketError::BidOutOfLimits) <==>
                    listed && in_lim && owner_ok && laddered && !top_ok)
                &&& (r is Ok <==> listed && in_lim && owner_ok && laddered && top_ok)
            }),
            r is Err ==> *final(self) == *old(self),
            r matches Ok(req) ==> ({
                let sales0 = old(self).market.sales@;
                let si = sale_index(sales0, nft_contract_id@, token_id@);
                let s0 = sales0[si];
                let l0 = crate::bid::ladder_of(s0.bids@, ft_token_id@);
                let top = l0.last();
                &&& final(self).market.sales@ == sales0.remove(si)
                &&& same_except_sales(final(self).market, old(self).market)
                &&& final(self).queued_transfers == old(self).queued_transfers
                &&& req.nft_contract_id == nft_contract_id
                &&& req.token_id == token_id
                &&& req.approval_id == s0.approval_id
                &&& req.ft_token_id == ft_token_id
                &&& req.buyer_id == top.owner_id
                &&& req.price == top.price
                &&& sale_without_top_bid(s0, req.sale, ft_token_id@)
            }),
    {
        let si = match find_sale(&self.market.sales, &nft_contract_id, &token_id) {
            None => { return Err(MarketError::NoSale); },
            Some(si) => si,
        };
        proof {
            lemma_sale_index(self.market.sales@, nft_contract_id@, token_id@, si as int);
        }
        let in_lim = self.market.sales[si].in_limits(now);
        if !in_lim {
            return Err(MarketError::SaleNotInProgress);
        }
        if !(predecessor_id == self.market.sales[si].owner_id) {
            return Err(MarketError::NotSaleOwner);
        }
        let li = match crate::bid::find_ladder(&self.market.sales[si].bids, &ft_token_id) {
            None => { return Err(MarketError::NoBids); },
            Some(li) => li,
        };
        let ghost sales0 = self.market.sales@;
        let ghost s0 = sales0[si as int];
        proof {
            crate::bid::lemma_ladder_index(s0.bids@, ft_token_id@, li as int);
        }
        let llen = self.market.sales[si].bids[li].bids.len();
        let top_ok = self.market.sales[si].bids[li].bids[llen - 1].in_limits(now);
        if !top_ok {
            return Err(MarketError::BidOutOfLimits);
        }
        let ghost m0 = self.market;
        let mut sale = self.market.sales.remove(si);
        let mut entry = sale.bids.remove(li);
        let top = match entry.bids.pop() {
            Some(top) => top,
            None => { return Err(MarketError::NoBids); },
        };
        if entry.bids.len() > 0 {
            sale.bids.insert(li, entry);
            proof {
                assert(sale.bids@ =~= s0.bids@.update(li as int, sale.bids@[li as int]));
                assert(sale.bids@[li as int].bids@ =~= crate::bid::ladder_of(
                    s0.bids@,
                    ft_token_id@,
                ).drop_last());
            }
        } else {
            proof {
                assert(sale.bids@ =~= s0.bids@.remove(li as int));
            }
        }
        proof {
            lemma_sales_remove_keeps_wf(m0, self.market, si as int);
        }
        let approval_id = sale.approval_id;
        Ok(PurchaseRequest {
            nft_contract_id,
            token_id,
            approval_id,
            ft_token_id,
            buyer_id: top.owner_id,
            price: top.price,
            sale,
        })
    }

    /// The amount a buyer must attach so that `price` remains after the
    /// protocol fee is added on top.
    pub fn price_with_fees(&self, price: u128) -> (r: u128)
        requires
            price + protocol_fee_of(price) <= u128::MAX,
        ensures
            r == price + protocol_fee_of(price),
    {
        let fee = protocol_fee(price);
        price + fee
    }

    /// Settlement phase 2, the callback for `process_purchase`'s request:
    /// resolve the outcome the token contract reported. `payout_option` is
    /// the payout parsed from a successful transfer call, `None` when the
    /// call failed or returned nothing parseable.
    ///
    /// Whatever the outcome, every outstanding bid left on the removed
    /// listing is refunded first: the listing is gone, so no later call
    /// could. A missing or invalid payout is then a failed settlement: the
    /// buyer is made whole (directly for the native asset, through the
    /// asset contract's own refund path otherwise). A valid payout
    /// disburses each recipient's share, with the protocol fee taken out
    /// of the seller's share. Returns the unspent remainder of the price.
    pub fn resolve_purchase(
        &mut self,
        ft_token_id: AccountId,
        buyer_id: AccountId,
        sale: Sale,
        price: u128,
        payout_option: Option<Payout>,
    ) -> (r: Result<u128, MarketError>)
        requires
            payout_option matches Some(p) ==> payout_keys_unique(p.payout@),
        ensures
            final(self).market == old(self).market,
            ({
                let valid = payout_option matches Some(p) && payout_valid(
                    p,
                    price,
                    sale.bids@.len() as int,
                );
                !valid ==> r == Ok::<u128, MarketError>(price) && failed_settlement(
                    old(self).queued_transfers@,
                    final(self).queued_transfers@,
                    buyer_id,
                    ft_token_id,
                    price,
                    sale.bids@,
                )
            }),
            payout_option matches Some(p) ==> (payout_valid(p, price, sale.bids@.len() as int)
                ==> ({
                let entries = p.payout@;
                let owner_present = has_payout_for(entries, sale.owner_id@);
                let oi = payout_index_of(entries, sale.owner_id@);
                let fee = protocol_fee_of(price);
                &&& (!owner_present ==> r == Err::<u128, MarketError>(
                    MarketError::PayoutMissingOwner,
                ) && *final(self) == *old(self))
                &&& (owner_present && entries[oi].amount < fee ==> r == Err::<u128,
                    MarketError>(MarketError::ProtocolFeeExceedsOwnerPayout) && *final(self)
                    == *old(self))
                &&& (owner_present && entries[oi].amount >= fee ==> {
                    &&& (ft_token_id@ == "near"@ ==> r == Ok::<u128, MarketError>(price))
                    &&& (ft_token_id@ != "near"@ ==> r == Ok::<u128, MarketError>(0))
                    &&& final(self).queued_transfers@ == old(self).queued_transfers@
                        + all_refunds(sale.bids@) + payout_transfers(
                        entries.remove(oi),
                        ft_token_id,
                    ) + seq![
                        (QueuedTransfer {
                            receiver_id: sale.owner_id,
                            amount: (entries[oi].amount - fee) as u128,
                            ft_token_id,
                        }),
                    ]
                })
            })),
    {
        let n_ladders = sale.bids.len();
        let near = String::from_str("near");
        let is_near = ft_token_id == near;
        let validated = match payout_option {
            None => None,
            Some(p) => validate_payout(p, price, n_ladders),
        };
        let mut payout = match validated {
            None => {
                // the removed listing's bids can be refunded only here
                self.refund_all_bids(&sale.bids);
                if is_near {
                    self.queued_transfers.push(QueuedTransfer {
                        receiver_id: buyer_id,
                        amount: price,
                        ft_token_id,
                    });
                }
                return Ok(price);
            },
            Some(p) => p,
        };
        let ghost entries = payout.payout@;
        let oi = match find_payout_for(&payout.payout, &sale.owner_id) {
            None => { return Err(MarketError::PayoutMissingOwner); },
            Some(oi) => oi,
        };
        proof {
            lemma_payout_index(entries, sale.owner_id@, oi as int);
        }
        let owner_amount = payout.payout[oi].amount;
        let fee = protocol_fee(price);
        if owner_amount < fee {
            return Err(MarketError::ProtocolFeeExceedsOwnerPayout);
        }
        // Everyone gets paid: first return all outstanding bids of the
        // removed listing (the accepted bid itself is already gone).
        self.refund_all_bids(&sale.bids);
        let ghost q1 = self.queued_transfers@;
        payout.payout.remove(oi);
        let ghost rest = entries.remove(oi as int);
        proof {
            assert(payout.payout@ == rest);
        }
        let n = payout.payout.len();
        let mut i: usize = 0;
        while i < n
            invariant
                i <= n,
                n == rest.len(),
                payout.payout@ == rest,
                self.market == old(self).market,
                self.queued_transfers@ == q1 + payout_transfers(rest.take(i as int), ft_token_id),
            decreases n - i,
        {
            self.queued_transfers.push(QueuedTransfer {
                receiver_id: payout.payout[i].account_id.clone(),
                amount: payout.payout[i].amount,
                ft_token_id: ft_token_id.clone(),
            });
            proof {
                assert(payout_transfers(rest.take(i + 1), ft_token_id) =~= payout_transfers(
                    rest.take(i as int),
                    ft_token_id,
                ).push(
                    (QueuedTransfer {
                        receiver_id: rest[i as int].account_id,
                        amount: rest[i as int].amount,
                        ft_token_id,
                    }),
                ));
                assert(q1 + payout_transfers(rest.take(i + 1), ft_token_id) =~= (q1
                    + payout_transfers(rest.take(i as int), ft_token_id)).push(
                    (QueuedTransfer {
                        receiver_id: rest[i as int].account_id,
                        amount: rest[i as int].amount,
                        ft_token_id,
                    }),
                ));
            }
            i = i + 1;
        }
        proof {
            assert(rest.take(n as int) =~= rest);
        }
        // The seller's share, after the protocol's cut.
        self.queued_transfers.push(QueuedTransfer {
            receiver_id: sale.owner_id,
            amount: owner_amount - fee,
            ft_token_id,
        });
        proof {
            assert(self.queued_transfers@ =~= old(self).queued_transfers@ + all_refunds(
                sale.bids@,
            ) + payout_transfers(rest, ft_token_id) + seq![
                (QueuedTransfer {
                    receiver_id: sale.owner_id,
                    amount: (entries[oi as int].amount - protocol_fee_of(price)) as u128,
                    ft_token_id,
                }),
            ]);
        }
        if is_near {
            Ok(price)
        } else {
            Ok(0)
        }
    }

    /// The callback that resolves a direct token-buy's payout request: a
    /// payout that is missing, unreconcilable or wider than the bounded
    /// fan-out of ten recipients refunds the buyer's deposit, otherwise
    /// every recipient's share is queued as a native transfer. Returns the
    /// price either way.
    pub fn resolve_token_buy(
        &mut self,
        buyer_id: AccountId,
        deposit: u128,
        price: u128,
        payout_option: Option<Payout>,
    ) -> (r: u128)
        ensures
            final(self).market == old(self).market,
            r == price,
            ({
                let valid = payout_option matches Some(p) && p.payout@.len() <= 10
                    && payout_sum_ok(p.payout@, price);
                !valid ==> pushed_native_transfer(
                    old(self).queued_transfers@,
                    final(self).queued_transfers@,
                    buyer_id@,
                    deposit,
                )
            }),
            payout_option matches Some(p) ==> (p.payout@.len() <= 10 && payout_sum_ok(
                p.payout@,
                price,
            ) ==> pushed_native_payout(
                old(self).queued_transfers@,
                final(self).queued_transfers@,
                p.payout@,
            )),
    {
        let near = String::from_str("near");
        let payout = match payout_option {
            None => {
                self.queued_transfers.push(QueuedTransfer {
                    receiver_id: buyer_id,
                    amount: deposit,
                    ft_token_id: near,
                });
                proof {
                    assert(self.queued_transfers@.take(old(self).queued_transfers@.len() as int)
                        =~= old(self).queued_transfers@);
                }
                return price;
            },
            Some(p) => p,
        };
        if payout.payout.len() > 10 || !check_payout_sum(&payout, price) {
            self.queued_transfers.push(QueuedTransfer {
                receiver_id: buyer_id,
                amount: deposit,
                ft_token_id: near,
            });
            proof {
                assert(self.queued_transfers@.take(old(self).queued_transfers@.len() as int)
                    =~= old(self).queued_transfers@);
            }
            return price;
        }
        let ghost q0 = self.queued_transfers@;
        let ghost entries = payout.payout@;
        let n = payout.payout.len();
        let mut i: usize = 0;
        while i < n
            invariant
                i <= n,
                n == entries.len(),
                near@ == "near"@,
                payout.payout@ == entries,
                self.market == old(self).market,
                self.queued_transfers@.len() == q0.len() + i,
                self.queued_transfers@.take(q0.len() as int) == q0,
                forall|k: int|
                    0 <= k < i ==> crate::bid::transfer_views(
                        #[trigger] self.queued_transfers@[q0.len() + k],
                        entries[k].account_id@,
                        entries[k].amount,
                        "near"@,
                    ),
            decreases n - i,
        {
            self.queued_transfers.push(QueuedTransfer {
                receiver_id: payout.payout[i].account_id.clone(),
                amount: payout.payout[i].amount,
                ft_token_id: near.clone(),
            });
            proof {
                assert(self.queued_transfers@.take(q0.len() as int) =~= q0);
            }
            i = i + 1;
        }
        price
    }

    /// Settlement phase 1: atomically take the matched listing out of the
    /// store — after this, any further match attempt on the same key fails
    /// its lookup — and build the asynchronous transfer-and-payout request
    /// for the token contract. The caller performs the request and feeds
    /// its outcome to `resolve_purchase`.
    pub fn process_purchase(
        &mut self,
        nft_contract_id: AccountId,
        token_id: TokenId,
        ft_token_id: FungibleTokenId,
        price: u128,
        buyer_id: AccountId,
    ) -> (r: Result<PurchaseRequest, MarketError>)
        requires
            old(self).wf(),
        ensures
            final(self).wf(),
            final(self).queued_transfers == old(self).queued_transfers,
            ({
                let listed = has_sale(old(self).market.sales@, nft_contract_id@, token_id@);
                &&& (r is Ok <==> listed)
                &&& (r is Err ==> r == Err::<PurchaseRequest, MarketError>(MarketError::NoSale)
                    && *final(self) == *old(self))
                &&& (r matches Ok(req) ==> {
                    let sales0 = old(self).market.sales@;
                    let si = sale_index(sales0, nft_contract_id@, token_id@);
                    &&& final(self).market.sales@ == sales0.remove(si)
                    &&& same_except_sales(final(self).market, old(self).market)
                    &&& req == (PurchaseRequest {
                        nft_contract_id,
                        token_id,
                        approval_id: sales0[si].approval_id,
                        ft_token_id,
                        buyer_id,
                        price,
                        sale: sales0[si],
                    })
                })
            }),
    {
        let sale = match self.internal_remove_sale(&nft_contract_id, &token_id) {
            Err(e) => { return Err(e); },
            Ok(sale) => sale,
        };
        let approval_id = sale.approval_id;
        Ok(PurchaseRequest {
            nft_contract_id,
            token_id,
            approval_id,
            ft_token_id,
            buyer_id,
            price,
            sale,
        })
    }
}

/// Find the index of the listing of token `t` of contract `c`.
pub fn find_sale(sales: &Vec<Sale>, c: &AccountId, t: &TokenId) -> (r: Option<usize>)
    ensures
        match r {
            Some(i) => i < sales@.len() && sale_key_is(sales@[i as int], c@, t@)
                && has_sale(sales@, c@, t@),
            None => !has_sale(sales@, c@, t@),
        },
{
    let n = sales.len();
    let mut i: usize = 0;
    while i < n
        invariant
            i <= n,
            n == sales@.len(),
            forall|k: int| 0 <= k < i ==> !sale_key_is(#[trigger] sales@[k], c@, t@),
        decreases n - i,
    {
        if sales[i].nft_contract_id == *c && sales[i].token_id == *t {
            return Some(i);
        }
        i = i + 1;
    }
    None
}

/// Find the index of the asking price in asset `ft`.
pub fn find_condition(conds: &SaleConditions, ft: &FungibleTokenId) -> (r: Option<usize>)
    ensures
        match r {
            Some(i) => i < conds@.len() && conds@[i as int].ft_token_id@ == ft@
                && has_condition(conds@, ft@),
            None => !has_condition(conds@, ft@),
        },
{
    let n = conds.len();
    let mut i: usize = 0;
    while i < n
        invariant
            i <= n,
            n == conds@.len(),
            forall|k: int| 0 <= k < i ==> #[trigger] conds@[k].ft_token_id@ != ft@,
        decreases n - i,
    {
        if conds[i].ft_token_id == *ft {
            return Some(i);
        }
        i = i + 1;
    }
    None
}

/// Find the index of the series listing of `sid` of contract `c`.
pub fn find_series_sale(series: &Vec<SeriesSale>, c: &AccountId, sid: &TokenSeriesId) -> (r:
    Option<usize>)
    ensures
        match r {
            Some(i) => i < series@.len() && series_key_is(series@[i as int], c@, sid@)
                && has_series_sale(series@, c@, sid@),
            None => !has_series_sale(series@, c@, sid@),
        },
{
    let n = series.len();
    let mut i: usize = 0;
    while i < n
        invariant
            i <= n,
            n == series@.len(),
            forall|k: int| 0 <= k < i ==> !series_key_is(#[trigger] series@[k], c@, sid@),
        decreases n - i,
    {
        if series[i].nft_contract_id == *c && series[i].series_id == *sid {
            return Some(i);
        }
        i = i + 1;
    }
    None
}

/// Whether the membership list holds the account `x`.
pub fn ids_contain(ids: &Vec<AccountId>, x: &AccountId) -> (r: bool)
    ensures
        r == id_listed(ids@, x@),
{
    let n = ids.len();
    let mut i: usize = 0;
    while i < n
        invariant
            i <= n,
            n == ids@.len(),
            forall|k: int| 0 <= k < i ==> #[trigger] ids@[k]@ != x@,
        decreases n - i,
    {
        if ids[i] == *x {
            return true;
        }
        i = i + 1;
    }
    false
}

/// Find the index of `a`'s storage ledger entry.
pub fn find_storage_deposit(deposits: &Vec<StorageDeposit>, a: &AccountId) -> (r: Option<usize>)
    ensures
        match r {
            Some(i) => i < deposits@.len() && deposits@[i as int].account_id@ == a@
                && has_storage_deposit(deposits@, a@),
            None => !has_storage_deposit(deposits@, a@),
        },
{
    let n = deposits.len();
    let mut i: usize = 0;
    while i < n
        invariant
            i <= n,
            n == deposits@.len(),
            forall|k: int| 0 <= k < i ==> #[trigger] deposits@[k].account_id@ != a@,
        decreases n - i,
    {
        if deposits[i].account_id == *a {
            return Some(i);
        }
        i = i + 1;
    }
    None
}

} // verus!
