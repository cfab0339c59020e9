//! The approval entry points: the token contract forwards an approval event
//! whose message names either a fixed-price/bid listing or an auction, and
//! the market turns it into a stored record after checking the caller, the
//! declared owner and the signer's storage deposit.

use vstd::prelude::*;

use vstd::utf8::encode_utf8;

use crate::auction::Auction;
use crate::sale::{
    has_sale, has_series_sale, id_listed, ids_contain, lemma_sale_index, market_sales_wf,
    sale_index, series_sale_index, storage_balance_of, MarketSales, Sale, SaleConditions,
    SeriesSale,
};
use crate::{AccountId, Market, MarketError, TokenId, TokenSeriesId, STORAGE_PER_SALE};

verus! {

/// Listing arguments carried by an approval message.
#[derive(Clone, Debug)]
pub struct SaleArgs {
    pub sale_conditions: SaleConditions,
    pub token_type: Option<String>,
    pub start: Option<u64>,
    pub end: Option<u64>,
}

/// Auction arguments carried by an approval message.
#[derive(Clone, Debug)]
pub struct AuctionArgs {
    pub token_type: Option<String>,
    pub minimal_step: u128,
    pub start_price: u128,
    pub start: u64,
    pub duration: u64,
    pub buy_out_price: Option<u128>,
}

/// The tagged union an approval message decodes to.
#[derive(Clone, Debug)]
pub enum ArgsKind {
    Sale(SaleArgs),
    Auction(AuctionArgs),
}

/// A series listing forwarded by the token contract.
#[derive(Clone, Debug)]
pub struct TokenSeriesSale {
    pub owner_id: AccountId,
    pub series_id: TokenSeriesId,
    pub sale_conditions: SaleConditions,
    pub copies: u64,
}

/// Whether `needle` occurs contiguously inside `hay`.
pub open spec fn is_substring_of(needle: Seq<u8>, hay: Seq<u8>) -> bool {
    exists|i: int|
        0 <= i && i + needle.len() <= hay.len() && #[trigger] hay.subrange(i, i + needle.len())
            == needle
}

/// How many listings of `owner` the sale store holds.
pub open spec fn owner_sales_count(sales: Seq<Sale>, owner: Seq<char>) -> int
    decreases sales.len(),
{
    if sales.len() == 0 {
        0
    } else {
        owner_sales_count(sales.drop_last(), owner) + if sales.last().owner_id@ == owner {
            1int
        } else {
            0int
        }
    }
}

/// How many series listings of `owner` the series store holds.
pub open spec fn owner_series_count(series: Seq<SeriesSale>, owner: Seq<char>) -> int
    decreases series.len(),
{
    if series.len() == 0 {
        0
    } else {
        owner_series_count(series.drop_last(), owner) + if series.last().owner_id@ == owner {
            1int
        } else {
            0int
        }
    }
}

/// How many listing slots `owner` occupies, over both stores.
pub open spec fn supply_by_owner(m: MarketSales, owner: Seq<char>) -> int {
    owner_sales_count(m.sales@, owner) + owner_series_count(m.series_sales@, owner)
}

/// The listing record an accepted sale approval stores.
pub open spec fn approved_sale_record(
    s: Sale,
    owner_id: AccountId,
    approval_id: u64,
    nft_contract_id: AccountId,
    token_id: TokenId,
    sa: SaleArgs,
    now: u64,
) -> bool {
    &&& s.owner_id == owner_id
    &&& s.approval_id == approval_id
    &&& s.nft_contract_id == nft_contract_id
    &&& s.token_id == token_id
    &&& s.sale_conditions == sa.sale_conditions
    &&& s.bids@.len() == 0
    &&& s.created_at == now
    &&& s.token_type == sa.token_type
    &&& s.start == sa.start
    &&& s.end == sa.end
}

/// Counting prefixes never counts more than their length.
proof fn lemma_owner_sales_count_take(sales: Seq<Sale>, owner: Seq<char>, i: int)
    requires
        0 <= i < sales.len(),
    ensures
        owner_sales_count(sales.take(i + 1), owner) == owner_sales_count(sales.take(i), owner)
            + if sales[i].owner_id@ == owner {
            1int
        } else {
            0int
        },
{
    assert(sales.take(i + 1).drop_last() =~= sales.take(i));
    assert(sales.take(i + 1).last() == sales[i]);
}

/// Counting prefixes of the series store, step by step.
proof fn lemma_owner_series_count_take(series: Seq<SeriesSale>, owner: Seq<char>, i: int)
    requires
        0 <= i < series.len(),
    ensures
        owner_series_count(series.take(i + 1), owner) == owner_series_count(
            series.take(i),
            owner,
        ) + if series[i].owner_id@ == owner {
            1int
        } else {
            0int
        },
{
    assert(series.take(i + 1).drop_last() =~= series.take(i));
    assert(series.take(i + 1).last() == series[i]);
}

/// Whether the byte sequence of `needle` occurs inside that of `hay`,
/// compared over their UTF-8 encodings.
pub fn str_contains(hay: &String, needle: &String) -> (r: bool)
    ensures
        r == is_substring_of(encode_utf8(needle@), encode_utf8(hay@)),
{
    let hb = hay.as_str().as_bytes();
    let nb = needle.as_str().as_bytes();
    let hn = hb.len();
    let nn = nb.len();
    if nn > hn {
        return false;
    }
    if nn == 0 {
        proof {
            assert(hb@.subrange(0, 0 + nb@.len() as int) =~= nb@);
        }
        return true;
    }
    let mut i: usize = 0;
    while i <= hn - nn
        invariant
            1 <= nn <= hn,
            hn == hb@.len(),
            nn == nb@.len(),
            hb@ == encode_utf8(hay@),
            nb@ == encode_utf8(needle@),
            i <= hn - nn + 1,
            forall|p: int| 0 <= p < i ==> #[trigger] hb@.subrange(p, p + nn) != nb@,
        decreases hn - nn + 1 - i,
    {
        if bytes_eq_at(hb, nb, i) {
            proof {
                assert(hb@.subrange(i as int, i as int + nn) == nb@);
            }
            return true;
        }
        i = i + 1;
    }
    proof {
        assert forall|p: int| 0 <= p && p + nb@.len() <= hb@.len() implies #[trigger] hb@
            .subrange(p, p + nb@.len()) != nb@ by {
            assert(p < i);
        }
    }
    false
}

/// Whether `nb` matches `hb` starting at position `i`.
fn bytes_eq_at(hb: &[u8], nb: &[u8], i: usize) -> (r: bool)
    requires
        i + nb@.len() <= hb@.len(),
    ensures
        r == (hb@.subrange(i as int, i as int + nb@.len() as int) == nb@),
{
    let nn = nb.len();
    let hn = hb.len();
    let mut j: usize = 0;
    while j < nn
        invariant
            j <= nn,
            nn == nb@.len(),
            hn == hb@.len(),
            i + nn <= hn,
            forall|q: int| 0 <= q < j ==> hb@[i + q] == #[trigger] nb@[q],
        decreases nn - j,
    {
        if hb[i + j] != nb[j] {
            proof {
                assert(hb@.subrange(i as int, i as int + nn)[j as int] != nb@[j as int]);
            }
            return false;
        }
        j = j + 1;
    }
    proof {
        assert(hb@.subrange(i as int, i as int + nn) =~= nb@);
    }
    true
}

impl Market {
    /// How many listing slots `owner_id` currently occupies.
    pub fn get_supply_by_owner_id(&self, owner_id: &AccountId) -> (r: u128)
        ensures
            r == supply_by_owner(self.market, owner_id@),
            r <= self.market.sales@.len() + self.market.series_sales@.len(),
            r < u128::MAX,
    {
        let mut count: u128 = 0;
        let n = self.market.sales.len();
        let mut i: usize = 0;
        while i < n
            invariant
                i <= n,
                n == self.market.sales@.len(),
                count == owner_sales_count(self.market.sales@.take(i as int), owner_id@),
                count <= i,
            decreases n - i,
        {
            proof {
                lemma_owner_sales_count_take(self.market.sales@, owner_id@, i as int);
            }
            if self.market.sales[i].owner_id == *owner_id {
                count = count + 1;
            }
            i = i + 1;
        }
        proof {
            assert(self.market.sales@.take(n as int) =~= self.market.sales@);
        }
        let m = self.market.series_sales.len();
        let mut j: usize = 0;
        let mut count2: u128 = count;
        while j < m
            invariant
                j <= m,
                m == self.market.series_sales@.len(),
                count2 == count + owner_series_count(
                    self.market.series_sales@.take(j as int),
                    owner_id@,
                ),
                count <= n,
                count2 <= count + j,
                n == self.market.sales@.len(),
                count == owner_sales_count(self.market.sales@, owner_id@),
            decreases m - j,
        {
            proof {
                lemma_owner_series_count_take(self.market.series_sales@, owner_id@, j as int);
            }
            if self.market.series_sales[j].owner_id == *owner_id {
                count2 = count2 + 1;
            }
            j = j + 1;
        }
        proof {
            assert(self.market.series_sales@.take(m as int) =~= self.market.series_sales@);
        }
        count2
    }

    /// Whether `signer_id` has pre-paid storage for one more listing slot
    /// than they occupy.
    fn storage_covers_one_more(&self, signer_id: &AccountId) -> (r: bool)
        requires
            self.wf(),
        ensures
            r == (storage_balance_of(self.market.storage_deposits@, signer_id@) >= (
            supply_by_owner(self.market, signer_id@) + 1) * STORAGE_PER_SALE),
    {
        let supply = self.get_supply_by_owner_id(signer_id);
        let paid = match crate::sale::find_storage_deposit(
            &self.market.storage_deposits,
            signer_id,
        ) {
            Some(i) => {
                proof {
                    crate::sale::lemma_storage_deposit_index(
                        self.market.storage_deposits@,
                        signer_id@,
                        i as int,
                    );
                }
                self.market.storage_deposits[i].amount
            },
            None => 0,
        };
        match (supply + 1).checked_mul(STORAGE_PER_SALE) {
            Some(required) => paid >= required,
            None => {
                proof {
                    assert(paid < (supply_by_owner(self.market, signer_id@) + 1)
                        * STORAGE_PER_SALE);
                }
                false
            },
        }
    }

    /// The approval entry point for one token: the token contract
    /// (`predecessor_id`) forwards an approval by `owner_id`, who must be
    /// the transaction signer, with decoded message arguments. A sale is
    /// stored under the listing key; a listing already there is replaced,
    /// with every outstanding bid on it refunded, since the store never
    /// discards value-bearing state silently. An auction is opened and
    /// returned with its id.
    #[verifier::loop_isolation(false)]
    pub fn nft_on_approve(
        &mut self,
        token_id: TokenId,
        owner_id: AccountId,
        approval_id: u64,
        args: ArgsKind,
        predecessor_id: AccountId,
        signer_id: AccountId,
        now: u64,
    ) -> (r: Result<Option<(u128, Auction)>, MarketError>)
        requires
            old(self).wf(),
            args matches ArgsKind::Auction(aa) ==> aa.start + aa.duration <= u64::MAX
                && old(self).market.next_auction_id < u128::MAX,
            args matches ArgsKind::Sale(sa) ==> forall|p: int, q: int|
                #![trigger sa.sale_conditions@[p], sa.sale_conditions@[q]]
                0 <= p < q < sa.sale_conditions@.len() ==> sa.sale_conditions@[p].ft_token_id@
                    != sa.sale_conditions@[q].ft_token_id@,
        ensures
            final(self).wf(),
            ({
                let cross = predecessor_id@ != signer_id@;
                let owner_ok = owner_id@ == signer_id@;
                let paid = storage_balance_of(old(self).market.storage_deposits@, signer_id@);
                let storage_ok = paid >= (supply_by_owner(old(self).market, signer_id@) + 1)
                    * STORAGE_PER_SALE;
                &&& (r == Err::<Option<(u128, Auction)>, MarketError>(
                    MarketError::CrossContractCallOnly,
                ) <==> !cross)
                &&& (r == Err::<Option<(u128, Auction)>, MarketError>(
                    MarketError::OwnerNotSigner,
                ) <==> cross && !owner_ok)
                &&& (r == Err::<Option<(u128, Auction)>, MarketError>(
                    MarketError::InsufficientStorage,
                ) <==> cross && owner_ok && !storage_ok)
                &&& (args matches ArgsKind::Sale(sa) ==> {
                    let conds_ok = forall|i: int|
                        0 <= i < sa.sale_conditions@.len() ==> id_listed(
                            old(self).market.ft_token_ids@,
                            (#[trigger] sa.sale_conditions@[i]).ft_token_id@,
                        );
                    let tt_ok = match sa.token_type {
                        Some(tt) => is_substring_of(encode_utf8(tt@), encode_utf8(token_id@)),
                        None => true,
                    };
                    &&& (r == Err::<Option<(u128, Auction)>, MarketError>(
                        MarketError::TokenNotSupported,
                    ) <==> cross && owner_ok && storage_ok && !conds_ok)
                    &&& (r == Err::<Option<(u128, Auction)>, MarketError>(
                        MarketError::TokenTypeMismatch,
                    ) <==> cross && owner_ok && storage_ok && conds_ok && !tt_ok)
                    &&& (r is Ok <==> cross && owner_ok && storage_ok && conds_ok && tt_ok)
                    &&& (r is Ok ==> r == Ok::<Option<(u128, Auction)>, MarketError>(None))
                })
                &&& (args matches ArgsKind::Auction(aa) ==> (r is Ok <==> cross && owner_ok
                    && storage_ok))
            }),
            r is Err ==> *final(self) == *old(self),
            args matches ArgsKind::Auction(aa) ==> (r is Ok ==> final(self).queued_transfers
                == old(self).queued_transfers),
            args matches ArgsKind::Sale(sa) ==> (r is Ok ==> ({
                let sales0 = old(self).market.sales@;
                let sales1 = final(self).market.sales@;
                &&& crate::sale::same_except_sales(final(self).market, old(self).market)
                &&& (if has_sale(sales0, predecessor_id@, token_id@) {
                    let si = sale_index(sales0, predecessor_id@, token_id@);
                    &&& sales1.len() == sales0.len()
                    &&& (forall|k: int| 0 <= k < sales0.len() && k != si ==> sales1[k]
                        == sales0[k])
                    &&& approved_sale_record(sales1[si], owner_id, approval_id, predecessor_id,
                        token_id, sa, now)
                    // the replaced record's outstanding bids are refunded:
                    // this replacement is the only way it leaves the store
                    &&& final(self).queued_transfers@ == old(self).queued_transfers@
                        + crate::bid::all_refunds(sales0[si].bids@)
                } else {
                    &&& sales1.len() == sales0.len() + 1
                    &&& (forall|k: int| 0 <= k < sales0.len() ==> sales1[k] == sales0[k])
                    &&& approved_sale_record(sales1[sales0.len() as int], owner_id, approval_id,
                        predecessor_id, token_id, sa, now)
                    &&& final(self).queued_transfers == old(self).queued_transfers
                })
            })),
            args matches ArgsKind::Auction(aa) ==> (r is Ok ==> ({
                let auction = (Auction {
                    owner_id,
                    approval_id,
                    nft_contract_id: predecessor_id,
                    token_id,
                    token_type: aa.token_type,
                    bid: None,
                    created_at: now,
                    start_price: aa.start_price,
                    minimal_step: aa.minimal_step,
                    buy_out_price: aa.buy_out_price,
                    start: aa.start,
                    end: (aa.start + aa.duration) as u64,
                });
                &&& r == Ok::<Option<(u128, Auction)>, MarketError>(
                    Some((old(self).market.next_auction_id, auction)),
                )
                &&& crate::sale::same_except_auctions(final(self).market, old(self).market)
                &&& final(self).market.auctions@ == old(self).market.auctions@.push(
                    (crate::auction::AuctionEntry {
                        id: old(self).market.next_auction_id,
                        auction,
                    }),
                )
                &&& final(self).market.next_auction_id == old(self).market.next_auction_id + 1
            })),
    {
        let nft_contract_id = predecessor_id;
        if nft_contract_id == signer_id {
            return Err(MarketError::CrossContractCallOnly);
        }
        if !(owner_id == signer_id) {
            return Err(MarketError::OwnerNotSigner);
        }
        if !self.storage_covers_one_more(&signer_id) {
            return Err(MarketError::InsufficientStorage);
        }
        let sale_args = match args {
            ArgsKind::Auction(auction_args) => {
                let started = self.start_auction(
                    auction_args,
                    token_id,
                    owner_id,
                    approval_id,
                    nft_contract_id,
                    now,
                );
                return Ok(Some(started));
            },
            ArgsKind::Sale(sale_args) => sale_args,
        };
        // every offered payment asset must be supported
        let n_conds = sale_args.sale_conditions.len();
        let mut ci: usize = 0;
        while ci < n_conds
            invariant
                ci <= n_conds,
                n_conds == sale_args.sale_conditions@.len(),
                forall|k: int|
                    0 <= k < ci ==> id_listed(
                        self.market.ft_token_ids@,
                        (#[trigger] sale_args.sale_conditions@[k]).ft_token_id@,
                    ),
                *self == *old(self),
            decreases n_conds - ci,
        {
            if !ids_contain(&self.market.ft_token_ids, &sale_args.sale_conditions[ci].ft_token_id)
            {
                return Err(MarketError::TokenNotSupported);
            }
            ci = ci + 1;
        }
        // a declared token type must be part of the token id
        match &sale_args.token_type {
            Some(tt) => {
                if !str_contains(&token_id, tt) {
                    return Err(MarketError::TokenTypeMismatch);
                }
            },
            None => {},
        }
        let no_bids: crate::bid::Bids = Vec::new();
        let sale = Sale {
            owner_id,
            approval_id,
            nft_contract_id,
            token_id,
            sale_conditions: sale_args.sale_conditions,
            bids: no_bids,
            created_at: now,
            token_type: sale_args.token_type,
            start: sale_args.start,
            end: sale_args.end,
        };
        let ghost sales0 = self.market.sales@;
        match crate::sale::find_sale(&self.market.sales, &sale.nft_contract_id, &sale.token_id) {
            Some(si) => {
                proof {
                    lemma_sale_index(sales0, sale.nft_contract_id@, sale.token_id@, si as int);
                }
                let replaced = self.market.sales.remove(si);
                self.market.sales.insert(si, sale);
                proof {
                    assert(self.market.sales@ =~= sales0.update(
                        si as int,
                        self.market.sales@[si as int],
                    ));
                    assert(market_sales_wf(self.market));
                }
                self.refund_all_bids(&replaced.bids);
            },
            None => {
                self.market.sales.push(sale);
                proof {
                    assert(market_sales_wf(self.market));
                }
            },
        }
        Ok(None)
    }

    /// The approval entry point for a token series, stored under the
    /// series key (replacing any series listing already there).
    #[verifier::loop_isolation(false)]
    pub fn nft_on_series_approve(
        &mut self,
        token_series: TokenSeriesSale,
        predecessor_id: AccountId,
        signer_id: AccountId,
        now: u64,
    ) -> (r: Result<(), MarketError>)
        requires
            old(self).wf(),
            forall|p: int, q: int|
                #![trigger token_series.sale_conditions@[p], token_series.sale_conditions@[q]]
                0 <= p < q < token_series.sale_conditions@.len()
                    ==> token_series.sale_conditions@[p].ft_token_id@
                    != token_series.sale_conditions@[q].ft_token_id@,
        ensures
            final(self).wf(),
            final(self).queued_transfers == old(self).queued_transfers,
            ({
                let cross = predecessor_id@ != signer_id@;
                let owner_ok = token_series.owner_id@ == signer_id@;
                let paid = storage_balance_of(old(self).market.storage_deposits@, signer_id@);
                let storage_ok = paid >= (supply_by_owner(old(self).market, signer_id@) + 1)
                    * STORAGE_PER_SALE;
                let conds_ok = forall|i: int|
                    0 <= i < token_series.sale_conditions@.len() ==> id_listed(
                        old(self).market.ft_token_ids@,
                        (#[trigger] token_series.sale_conditions@[i]).ft_token_id@,
                    );
                &&& (r == Err::<(), MarketError>(MarketError::CrossContractCallOnly) <==> !cross)
                &&& (r == Err::<(), MarketError>(MarketError::OwnerNotSigner) <==> cross
                    && !owner_ok)
                &&& (r == Err::<(), MarketError>(MarketError::InsufficientStorage) <==> cross
                    && owner_ok && !storage_ok)
                &&& (r == Err::<(), MarketError>(MarketError::TokenNotSupported) <==> cross
                    && owner_ok && storage_ok && !conds_ok)
                &&& (r is Ok <==> cross && owner_ok && storage_ok && conds_ok)
            }),
            r is Err ==> *final(self) == *old(self),
            r is Ok ==> ({
                let series0 = old(self).market.series_sales@;
                let series1 = final(self).market.series_sales@;
                let rec = (SeriesSale {
                    owner_id: token_series.owner_id,
                    nft_contract_id: predecessor_id,
                    series_id: token_series.series_id,
                    sale_conditions: token_series.sale_conditions,
                    created_at: now,
                    copies: token_series.copies,
                });
                &&& final(self).market.sales == old(self).market.sales
                &&& final(self).market.auctions == old(self).market.auctions
                &&& final(self).market.next_auction_id == old(self).market.next_auction_id
                &&& final(self).market.ft_token_ids == old(self).market.ft_token_ids
                &&& final(self).market.storage_deposits == old(self).market.storage_deposits
                &&& final(self).market.bid_history_length == old(self).market.bid_history_length
                &&& final(self).market.owner_id == old(self).market.owner_id
                &&& (if has_series_sale(series0, predecessor_id@, token_series.series_id@) {
                    series1 == series0.update(
                        series_sale_index(series0, predecessor_id@, token_series.series_id@),
                        rec,
                    )
                } else {
                    series1 == series0.push(rec)
                })
            }),
    {
        let nft_contract_id = predecessor_id;
        if nft_contract_id == signer_id {
            return Err(MarketError::CrossContractCallOnly);
        }
        if !(token_series.owner_id == signer_id) {
            return Err(MarketError::OwnerNotSigner);
        }
        if !self.storage_covers_one_more(&signer_id) {
            return Err(MarketError::InsufficientStorage);
        }
        let n_conds = token_series.sale_conditions.len();
        let mut ci: usize = 0;
        while ci < n_conds
            invariant
                ci <= n_conds,
                n_conds == token_series.sale_conditions@.len(),
                forall|k: int|
                    0 <= k < ci ==> id_listed(
                        self.market.ft_token_ids@,
                        (#[trigger] token_series.sale_conditions@[k]).ft_token_id@,
                    ),
                *self == *old(self),
            decreases n_conds - ci,
        {
            if !ids_contain(
                &self.market.ft_token_ids,
                &token_series.sale_conditions[ci].ft_token_id,
            ) {
                return Err(MarketError::TokenNotSupported);
            }
            ci = ci + 1;
        }
        let rec = SeriesSale {
            owner_id: token_series.owner_id,
            nft_contract_id,
            series_id: token_series.series_id,
            sale_conditions: token_series.sale_conditions,
            created_at: now,
            copies: token_series.copies,
        };
        let ghost series0 = self.market.series_sales@;
        match crate::sale::find_series_sale(
            &self.market.series_sales,
            &rec.nft_contract_id,
            &rec.series_id,
        ) {
            Some(si) => {
                proof {
                    crate::sale::lemma_series_index(
                        series0,
                        rec.nft_contract_id@,
                        rec.series_id@,
                        si as int,
                    );
                }
                self.market.series_sales.remove(si);
                self.market.series_sales.insert(si, rec);
                proof {
                    assert(self.market.series_sales@ =~= series0.update(
                        si as int,
                        self.market.series_sales@[si as int],
                    ));
                    assert(market_sales_wf(self.market));
                }
            },
            None => {
                self.market.series_sales.push(rec);
                proof {
                    assert(market_sales_wf(self.market));
                }
            },
        }
        Ok(())
    }
}

} // verus!
