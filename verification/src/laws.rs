//! The library's global guarantees, stated and proved over the same spec
//! functions its contracts use.

use vstd::prelude::*;

use crate::bid::{
    bid_match_index, bid_matches, has_ladder, ladder_has_match, ladder_index, ladder_of,
    lemma_remove_match_leaves_none, removed_bid_state,
};
use crate::sale::{
    has_sale, sale_at, sale_index, sale_key_is, MarketSales, Sale,
};
use crate::Market;

verus! {

/// In a well-formed market, the prices of every bid ladder are strictly
/// increasing in insertion order: each stored bid out-bid the whole ladder
/// before it. (`add_bid` both preserves this and rejects any bid at or
/// below the current maximum, by its contract.)
pub proof fn lemma_ladder_prices_increase(m: Market, c: Seq<char>, t: Seq<char>, ft: Seq<char>)
    requires
        m.wf(),
        has_sale(m.market.sales@, c, t),
        has_ladder(sale_at(m.market.sales@, c, t).bids@, ft),
    ensures
        forall|i: int, j: int|
            #![trigger ladder_of(sale_at(m.market.sales@, c, t).bids@, ft)[i],
                ladder_of(sale_at(m.market.sales@, c, t).bids@, ft)[j]]
            0 <= i < j < ladder_of(sale_at(m.market.sales@, c, t).bids@, ft).len()
                ==> ladder_of(sale_at(m.market.sales@, c, t).bids@, ft)[i].price < ladder_of(
                sale_at(m.market.sales@, c, t).bids@,
                ft,
            )[j].price,
{
    let si = sale_index(m.market.sales@, c, t);
    let s = m.market.sales@[si];
    assert(crate::sale::sale_wf(s, m.market.bid_history_length as int));
    let li = ladder_index(s.bids@, ft);
    assert(crate::bid::ladder_wf(s.bids@[li].bids@, m.market.bid_history_length as int));
}

/// In a well-formed market, no bid ladder is ever longer than the market's
/// `bid_history_length`. (When an accepted bid would exceed it, `add_bid`'s
/// contract shows that exactly the bid that stood at index 0 is refunded
/// and evicted.)
pub proof fn lemma_ladder_bounded(m: Market, c: Seq<char>, t: Seq<char>, ft: Seq<char>)
    requires
        m.wf(),
        has_sale(m.market.sales@, c, t),
        has_ladder(sale_at(m.market.sales@, c, t).bids@, ft),
    ensures
        ladder_of(sale_at(m.market.sales@, c, t).bids@, ft).len()
            <= m.market.bid_history_length,
{
    let si = sale_index(m.market.sales@, c, t);
    let s = m.market.sales@[si];
    assert(crate::sale::sale_wf(s, m.market.bid_history_length as int));
    let li = ladder_index(s.bids@, ft);
    assert(crate::bid::ladder_wf(s.bids@[li].bids@, m.market.bid_history_length as int));
}

/// A removed bid can be refunded only once: after the state change that
/// `remove_bid` (or `cancel_bid`) makes for the bid of `owner` at `price`,
/// no bid of that owner and price is left anywhere in that ladder — so a
/// second call for the same bid fails by those functions' contracts, and
/// queues no second refund.
pub proof fn lemma_removed_bid_cannot_match_again(
    m0: MarketSales,
    m1: MarketSales,
    c: Seq<char>,
    t: Seq<char>,
    ft: Seq<char>,
    owner: Seq<char>,
    price: u128,
)
    requires
        crate::sale::market_sales_wf(m0),
        has_sale(m0.sales@, c, t),
        has_ladder(sale_at(m0.sales@, c, t).bids@, ft),
        ladder_has_match(ladder_of(sale_at(m0.sales@, c, t).bids@, ft), owner, price),
        removed_bid_state(m0, m1, c, t, ft, owner, price),
    ensures
        !(has_ladder(sale_at(m1.sales@, c, t).bids@, ft) && ladder_has_match(
            ladder_of(sale_at(m1.sales@, c, t).bids@, ft),
            owner,
            price,
        )),
{
    let sales0 = m0.sales@;
    let si = sale_index(sales0, c, t);
    crate::sale::lemma_sale_index(sales0, c, t, si);
    let s0 = sales0[si];
    assert(crate::sale::sale_wf(s0, m0.bid_history_length as int));
    let li = ladder_index(s0.bids@, ft);
    crate::bid::lemma_ladder_index(s0.bids@, ft, li);
    let l0 = ladder_of(s0.bids@, ft);
    let mi = bid_match_index(l0, owner, price);
    assert(0 <= mi < l0.len() && bid_matches(l0[mi], owner, price));
    let s1 = m1.sales@[si];
    assert(sale_key_is(s1, c, t));
    assert forall|k: int| 0 <= k < m1.sales@.len() implies #[trigger] m1.sales@[k]
        .nft_contract_id@ == sales0[k].nft_contract_id@ && m1.sales@[k].token_id@
        == sales0[k].token_id@ by {
        if k != si {
            assert(m1.sales@[k] == sales0[k]);
        }
    }
    crate::sale::lemma_sale_index(m1.sales@, c, t, si);
    if l0.len() == 1 {
        // the emptied ladder left the listing, taking its key with it
        assert forall|k: int| 0 <= k < s1.bids@.len() implies #[trigger] s1.bids@[k]
            .ft_token_id@ != ft by {
            let k0 = if k < li { k } else { k + 1 };
            assert(s1.bids@[k] == s0.bids@[k0]);
            if k0 < li {
                assert(s0.bids@[k0].ft_token_id@ != s0.bids@[li].ft_token_id@);
            } else {
                assert(s0.bids@[li].ft_token_id@ != s0.bids@[k0].ft_token_id@);
            }
        }
    } else {
        crate::bid::lemma_ladder_index(s1.bids@, ft, li);
        lemma_remove_match_leaves_none(l0, owner, price, mi);
    }
}

/// A buy-out finalizes the auction in the very call that placed the bid:
/// `place_auction_bid`'s contract shows that a bid at or above the buy-out
/// price removes the auction's entry and returns its settlement request
/// right there, regardless of the remaining duration — and by this lemma
/// the removal leaves no auction under that id, so any later bid or
/// finalization attempt fails its lookup, exactly as `finish_auction`'s
/// own removal does.
pub proof fn lemma_auction_finalized_at_once(auctions: Seq<crate::auction::AuctionEntry>, id: u128)
    requires
        forall|p: int, q: int|
            #![trigger auctions[p], auctions[q]]
            0 <= p < q < auctions.len() ==> auctions[p].id != auctions[q].id,
        crate::auction::has_auction(auctions, id),
    ensures
        !crate::auction::has_auction(
            auctions.remove(crate::auction::auction_index(auctions, id)),
            id,
        ),
{
    let ai = crate::auction::auction_index(auctions, id);
    assert(0 <= ai < auctions.len() && auctions[ai].id == id);
    let rest = auctions.remove(ai);
    assert forall|k: int| 0 <= k < rest.len() implies #[trigger] rest[k].id != id by {
        let k0 = if k < ai { k } else { k + 1 };
        assert(rest[k] == auctions[k0]);
        if k0 < ai {
            assert(auctions[k0].id != auctions[ai].id);
        } else {
            assert(auctions[ai].id != auctions[k0].id);
        }
    }
}

/// Settlement is at most once: taking a listing out of the store (as
/// settlement phase 1 does before anything asynchronous happens) leaves no
/// listing under that key, so any concurrent or later match attempt on the
/// same key fails its lookup by the store functions' contracts.
pub proof fn lemma_settlement_at_most_once(sales: Seq<Sale>, c: Seq<char>, t: Seq<char>)
    requires
        forall|p: int, q: int|
            #![trigger sales[p], sales[q]]
            0 <= p < q < sales.len() ==> !(sales[p].nft_contract_id@ == sales[q].nft_contract_id@
                && sales[p].token_id@ == sales[q].token_id@),
        has_sale(sales, c, t),
    ensures
        !has_sale(sales.remove(sale_index(sales, c, t)), c, t),
{
    let si = sale_index(sales, c, t);
    assert(0 <= si < sales.len() && sale_key_is(sales[si], c, t));
    let rest = sales.remove(si);
    assert forall|k: int| 0 <= k < rest.len() implies !sale_key_is(#[trigger] rest[k], c, t) by {
        let k0 = if k < si { k } else { k + 1 };
        assert(rest[k] == sales[k0]);
        if k0 < si {
            assert(!(sales[k0].nft_contract_id@ == sales[si].nft_contract_id@
                && sales[k0].token_id@ == sales[si].token_id@));
        } else {
            assert(!(sales[si].nft_contract_id@ == sales[k0].nft_contract_id@
                && sales[si].token_id@ == sales[k0].token_id@));
        }
    }
}

} // verus!
