//! Laws of the marketplace that span more than one operation: slot
//! uniqueness, terminal states, idempotent replacement of offers,
//! consume-once acceptance, and gapless pagination.

use vstd::prelude::*;
use crate::error::ContractError;
use crate::execute::{spec_new_listing, spec_sold_listing, spec_cancelled_listing};
use crate::listing_store::{
    listing_entry_ok, listing_matches, listing_seq_sorted, matching_listings,
};
use crate::order_state::{nft_lt, order_key_lt, Asset, Nft, OrderComponents, OrderKey, User};
use crate::order_store::{
    matching_orders_desc, nft_offers_pred, order_seq_sorted, user_offers_pred,
};
use crate::state::{
    listing_key_lt, AuctionConfig, Listing, ListingKey, MarketplaceContract,
};
use crate::types::{Addr, Coin, Env, Expiration, TokenId};

verus! {

/// For every asset there is at most one listing slot — so at most one
/// `Ongoing` listing — at any time: two active entries for the same key
/// are the same entry.
pub proof fn lemma_at_most_one_ongoing_listing(
    m: MarketplaceContract,
    asset: ListingKey,
    i: int,
    j: int,
)
    requires
        m.wf(),
        0 <= i < m.listings.entry_seq().len(),
        0 <= j < m.listings.entry_seq().len(),
        m.listings.entry_seq()[i].0 == asset,
        m.listings.entry_seq()[j].0 == asset,
        m.listings.entry_seq()[i].1.spec_is_active(),
        m.listings.entry_seq()[j].1.spec_is_active(),
    ensures
        i == j,
{
    crate::listing_store::lemma_listing_key_unique(m.listings.entry_seq(), i, j);
}

/// Terminal states do not block re-listing: when `list` succeeded and the
/// seller then cancelled, listing the same asset again succeeds.  The two
/// intermediate states are as `execute_list_nft` and `execute_cancel`
/// leave them.
pub proof fn lemma_list_cancel_relist(
    m0: MarketplaceContract,
    m1: MarketplaceContract,
    m2: MarketplaceContract,
    env: Env,
    sender: Addr,
    contract_address: Addr,
    token_id: TokenId,
    config1: AuctionConfig,
    config2: AuctionConfig,
    owner_of: Option<Addr>,
    approval: Option<Expiration>,
    at: u64,
)
    requires
        m0.spec_list_ok(sender, contract_address, token_id, config1, owner_of, approval),
        m1.listings.as_map() == m0.listings.as_map().insert(
            (contract_address, token_id),
            spec_new_listing(sender, contract_address, token_id, config1),
        ),
        m2.listings.as_map() == m1.listings.as_map().insert(
            (contract_address, token_id),
            spec_cancelled_listing(m1.listings.spec_get((contract_address, token_id)), at),
        ),
        crate::execute::spec_valid_auction_config(config2),
    ensures
        m1.spec_cancel_ok(env, sender, contract_address, token_id),
        m2.spec_list_ok(sender, contract_address, token_id, config2, owner_of, approval),
{
    let key = (contract_address, token_id);
    assert(m1.listings.as_map().dom().contains(key));
    assert(m1.listings.contains_key(key));
    assert(m1.listings.spec_get(key) == m1.listings.as_map()[key]);
    assert(m1.listings.spec_get(key) == spec_new_listing(
        sender,
        contract_address,
        token_id,
        config1,
    ));
    assert(m2.listings.as_map().dom().contains(key));
    assert(m2.listings.contains_key(key));
    assert(m2.listings.spec_get(key) == m2.listings.as_map()[key]);
    assert(!m2.listings.spec_get(key).spec_is_active());
}

/// A sold listing is never payable twice: after a successful `buy`, any
/// further `buy` on the same key fails, precisely with
/// `ListingNotActive`.
pub proof fn lemma_buy_never_pays_twice(
    m0: MarketplaceContract,
    m1: MarketplaceContract,
    env1: Env,
    env2: Env,
    buyer1: Addr,
    buyer2: Addr,
    funds1: Seq<Coin>,
    funds2: Seq<Coin>,
    contract_address: Addr,
    token_id: TokenId,
    e: ContractError,
)
    requires
        m0.spec_buy_ok(env1, buyer1, funds1, contract_address, token_id),
        m1.listings.as_map() == m0.listings.as_map().insert(
            (contract_address, token_id),
            spec_sold_listing(
                m0.listings.spec_get((contract_address, token_id)),
                buyer1,
            ),
        ),
    ensures
        !m1.spec_buy_ok(env2, buyer2, funds2, contract_address, token_id),
        m1.spec_buy_err(env2, buyer2, funds2, contract_address, token_id, e) == (
        e is ListingNotActive),
{
    let key = (contract_address, token_id);
    assert(m1.listings.as_map().dom().contains(key));
    assert(m1.listings.contains_key(key));
    assert(m1.listings.spec_get(key) == m1.listings.as_map()[key]);
    assert(!m1.listings.spec_get(key).spec_is_active());
}

/// An offer is idempotently replaceable: whether `offer` succeeds never
/// depends on the stored orders, so a second offer for the same
/// (offerer, asset) pair goes through and simply overwrites the first —
/// `execute_offer_nft` pins the overwritten slot to the new order.
pub proof fn lemma_offer_is_replaceable(
    m0: MarketplaceContract,
    m1: MarketplaceContract,
    env: Env,
    sender: Addr,
    nft: Asset,
    funds: Asset,
    end_time: Expiration,
    allowance: Option<u128>,
    balance: Option<u128>,
    owner_of: Option<Addr>,
)
    ensures
        m0.spec_offer_ok(env, sender, nft, funds, end_time, allowance, balance, owner_of)
            == m1.spec_offer_ok(env, sender, nft, funds, end_time, allowance, balance, owner_of),
{
}

/// An expired order cannot be accepted: `accept` fails with the
/// validation error and — by `execute_accept_nft_offer`'s contract — the
/// failing call leaves the order exactly where it was.
pub proof fn lemma_accept_expired_rejected(
    m: MarketplaceContract,
    env: Env,
    sender: Addr,
    offerer: Addr,
    contract_address: Addr,
    token_id: TokenId,
    owner_of: Option<Addr>,
    e: ContractError,
)
    requires
        m.offers.contains_key((offerer, (contract_address, token_id))),
        ({
            let o = m.offers.spec_get((offerer, (contract_address, token_id)));
            o.end_time matches Some(t) && t.spec_is_expired(env.block)
        }),
    ensures
        !m.spec_accept_ok(
            env,
            sender,
            offerer,
            Asset::Nft { nft_address: contract_address, token_id: Some(token_id) },
            owner_of,
        ),
        m.spec_accept_err(
            env,
            sender,
            offerer,
            Asset::Nft { nft_address: contract_address, token_id: Some(token_id) },
            owner_of,
            e,
        ) == (e matches ContractError::CustomError { val } && val@ == "Offer is expired"@),
{
}

/// A valid order is consumed exactly once: after a successful `accept`
/// removed it, a second `accept` on the same key fails, precisely with
/// `NotFound`.
pub proof fn lemma_accept_removes_exactly_once(
    m0: MarketplaceContract,
    m1: MarketplaceContract,
    env1: Env,
    env2: Env,
    sender1: Addr,
    sender2: Addr,
    offerer: Addr,
    contract_address: Addr,
    token_id: TokenId,
    owner1: Option<Addr>,
    owner2: Option<Addr>,
    e: ContractError,
)
    requires
        m0.spec_accept_ok(
            env1,
            sender1,
            offerer,
            Asset::Nft { nft_address: contract_address, token_id: Some(token_id) },
            owner1,
        ),
        m1.offers.as_map() == m0.offers.as_map().remove((offerer, (contract_address, token_id))),
    ensures
        !m1.spec_accept_ok(
            env2,
            sender2,
            offerer,
            Asset::Nft { nft_address: contract_address, token_id: Some(token_id) },
            owner2,
        ),
        m1.spec_accept_err(
            env2,
            sender2,
            offerer,
            Asset::Nft { nft_address: contract_address, token_id: Some(token_id) },
            owner2,
            e,
        ) == (e is NotFound),
{
    let key = (offerer, (contract_address, token_id));
    assert(!m1.offers.as_map().dom().contains(key));
    assert(!m1.offers.contains_key(key));
}

/// Self-trade is rejected on both paths: `buy` by the listing's own
/// seller never succeeds, and `offer` by the asset's reported owner on
/// their own asset never succeeds.
pub proof fn lemma_self_trade_rejected(
    m: MarketplaceContract,
    env: Env,
    funds: Seq<Coin>,
    contract_address: Addr,
    token_id: TokenId,
    nft: Asset,
    payment: Asset,
    end_time: Expiration,
    allowance: Option<u128>,
    balance: Option<u128>,
    owner: Addr,
)
    ensures
        m.listings.contains_key((contract_address, token_id)) ==> !m.spec_buy_ok(
            env,
            m.listings.spec_get((contract_address, token_id)).seller,
            funds,
            contract_address,
            token_id,
        ),
        !m.spec_offer_ok(env, owner, nft, payment, end_time, allowance, balance, Some(owner)),
{
}

/// Cancelling all of a user's offers removes every order keyed by that
/// user and none belonging to another user.  The state transition is the
/// one `execute_cancel_all_offer` ensures.
pub proof fn lemma_cancel_all_scoped_to_user(
    m0: MarketplaceContract,
    m1: MarketplaceContract,
    user: Addr,
    k: crate::order_state::OrderKey,
)
    requires
        m1.offers.as_map() == m0.offers.as_map().remove_keys(
            Set::new(|k: crate::order_state::OrderKey| k.0 == user),
        ),
    ensures
        k.0 == user ==> !m1.offers.contains_key(k),
        k.0 != user ==> (m1.offers.contains_key(k) == m0.offers.contains_key(k)) && (
        m0.offers.contains_key(k) ==> m1.offers.spec_get(k) == m0.offers.spec_get(k)),
{
    assert(m1.offers.as_map().dom() =~= m0.offers.as_map().dom().difference(
        Set::new(|k: crate::order_state::OrderKey| k.0 == user),
    ));
    if k.0 != user {
        assert(m1.offers.contains_key(k) == m1.offers.as_map().dom().contains(k));
        assert(m0.offers.contains_key(k) == m0.offers.as_map().dom().contains(k));
        if m0.offers.contains_key(k) {
            assert(m1.offers.as_map()[k] == m0.offers.as_map()[k]);
            assert(m1.offers.spec_get(k) == m1.offers.as_map()[k]);
            assert(m0.offers.spec_get(k) == m0.offers.as_map()[k]);
        }
    } else {
        assert(!m1.offers.as_map().dom().contains(k));
        assert(m1.offers.contains_key(k) == m1.offers.as_map().dom().contains(k));
    }
}

/// Every matching listing the range view returns comes from some table
/// entry that satisfies the match window.
proof fn lemma_matching_source(
    s: Seq<(ListingKey, Listing)>,
    status: Seq<char>,
    contract_address: Addr,
    start_after: Option<TokenId>,
    j: int,
)
    requires
        0 <= j < matching_listings(s, status, contract_address, start_after).len(),
    ensures
        exists|i: int|
            0 <= i < s.len() && listing_matches(
                #[trigger] s[i],
                status,
                contract_address,
                start_after,
            ) && s[i].1 == matching_listings(s, status, contract_address, start_after)[j],
    decreases s.len(),
{
    let m = matching_listings(s, status, contract_address, start_after);
    let s_ = s.drop_last();
    let m_ = matching_listings(s_, status, contract_address, start_after);
    if listing_matches(s.last(), status, contract_address, start_after) {
        if j < m_.len() {
            lemma_matching_source(s_, status, contract_address, start_after, j);
            let i = choose|i: int|
                0 <= i < s_.len() && listing_matches(
                    #[trigger] s_[i],
                    status,
                    contract_address,
                    start_after,
                ) && s_[i].1 == m_[j];
            assert(s[i] == s_[i]);
        } else {
            assert(s[s.len() - 1] == s.last());
        }
    } else {
        lemma_matching_source(s_, status, contract_address, start_after, j);
        let i = choose|i: int|
            0 <= i < s_.len() && listing_matches(
                #[trigger] s_[i],
                status,
                contract_address,
                start_after,
            ) && s_[i].1 == m_[j];
        assert(s[i] == s_[i]);
    }
}

/// A scan over entries that all fail the window returns nothing.
proof fn lemma_matching_none(
    s: Seq<(ListingKey, Listing)>,
    status: Seq<char>,
    contract_address: Addr,
    start_after: Option<TokenId>,
)
    requires
        forall|i: int|
            0 <= i < s.len() ==> !listing_matches(
                #[trigger] s[i],
                status,
                contract_address,
                start_after,
            ),
    ensures
        matching_listings(s, status, contract_address, start_after) == Seq::<Listing>::empty(),
    decreases s.len(),
{
    if s.len() > 0 {
        let s_ = s.drop_last();
        assert(forall|i: int| 0 <= i < s_.len() ==> s_[i] == s[i]);
        lemma_matching_none(s_, status, contract_address, start_after);
        assert(s[s.len() - 1] == s.last());
    }
}

/// Pagination has no duplication and no gap: querying again with the
/// last returned token as the exclusive cursor yields exactly the rest
/// of the result sequence.  With the server-side cap this means the page
/// after `m.take(cap)` is a prefix of `m.skip(cap)`.
pub proof fn lemma_listing_pages_adjacent(
    s: Seq<(ListingKey, Listing)>,
    status: Seq<char>,
    contract_address: Addr,
    start_after: Option<TokenId>,
    k: int,
)
    requires
        listing_seq_sorted(s),
        forall|i: int| 0 <= i < s.len() ==> listing_entry_ok(#[trigger] s[i]),
        0 <= k < matching_listings(s, status, contract_address, start_after).len(),
    ensures
        matching_listings(
            s,
            status,
            contract_address,
            Some(matching_listings(s, status, contract_address, start_after)[k].token_id),
        ) == matching_listings(s, status, contract_address, start_after).skip(k + 1),
    decreases s.len(),
{
    let m = matching_listings(s, status, contract_address, start_after);
    let s_ = s.drop_last();
    let e = s.last();
    let m_ = matching_listings(s_, status, contract_address, start_after);
    assert(forall|i: int| 0 <= i < s_.len() ==> s_[i] == s[i]);
    assert(listing_seq_sorted(s_));
    if listing_matches(e, status, contract_address, start_after) {
        assert(m == m_.push(e.1));
        if k == m_.len() {
            let t = e.1.token_id;
            assert(listing_entry_ok(s[s.len() - 1]));
            assert(t == e.0.1);
            assert(m[k] == e.1);
            // Every earlier entry of this collection carries a smaller
            // token, so nothing lies strictly after the cursor.
            assert forall|i: int| 0 <= i < s_.len() implies !listing_matches(
                #[trigger] s_[i],
                status,
                contract_address,
                Some(t),
            ) by {
                if s_[i].0.0 == contract_address {
                    assert(listing_key_lt(s[i].0, s[s.len() - 1].0));
                }
            }
            lemma_matching_none(s_, status, contract_address, Some(t));
            assert(!listing_matches(e, status, contract_address, Some(t)));
            assert(matching_listings(s, status, contract_address, Some(t)) =~= Seq::<
                Listing,
            >::empty());
            assert(m.skip(k + 1) =~= Seq::<Listing>::empty());
        } else {
            assert(m[k] == m_[k]);
            let t = m_[k].token_id;
            lemma_listing_pages_adjacent(s_, status, contract_address, start_after, k);
            lemma_matching_source(s_, status, contract_address, start_after, k);
            let i = choose|i: int|
                0 <= i < s_.len() && listing_matches(
                    #[trigger] s_[i],
                    status,
                    contract_address,
                    start_after,
                ) && s_[i].1 == m_[k];
            assert(listing_entry_ok(s[i]));
            assert(s[i].0.1 == t);
            assert(listing_key_lt(s[i].0, s[s.len() - 1].0));
            assert(listing_entry_ok(s[s.len() - 1]));
            assert(e.0.1 > t);
            assert(listing_matches(e, status, contract_address, Some(t)));
            assert(matching_listings(s, status, contract_address, Some(t)) == matching_listings(
                s_,
                status,
                contract_address,
                Some(t),
            ).push(e.1));
            assert(m_.skip(k + 1).push(e.1) =~= m_.push(e.1).skip(k + 1));
        }
    } else {
        assert(m == m_);
        assert(m[k] == m_[k]);
        let t = m_[k].token_id;
        lemma_listing_pages_adjacent(s_, status, contract_address, start_after, k);
        lemma_matching_source(s_, status, contract_address, start_after, k);
        let i = choose|i: int|
            0 <= i < s_.len() && listing_matches(
                #[trigger] s_[i],
                status,
                contract_address,
                start_after,
            ) && s_[i].1 == m_[k];
        assert(listing_entry_ok(s[i]));
        assert(s[i].0.1 == t);
        // The last entry cannot lie strictly after this cursor: either it
        // fails the status or collection test outright, or it sits below
        // the first page's own cursor, hence below `t`.
        assert(listing_key_lt(s[i].0, s[s.len() - 1].0));
        if e.1.status.spec_name() == status && e.0.0 == contract_address {
            // It failed the original window, so only its token disqualified
            // it; that token is at most the original cursor, which lies
            // strictly below `t`.
            assert(listing_entry_ok(s[s.len() - 1]));
            match start_after {
                Some(t0) => {
                    assert(!(e.0.1 > t0));
                    assert(s[i].0.1 > t0);
                    assert(s[i].0.0 == contract_address);
                    assert(e.0.1 > s[i].0.1);
                    assert(false);
                },
                None => {
                    assert(listing_matches(e, status, contract_address, start_after));
                    assert(false);
                },
            }
        }
        assert(!listing_matches(e, status, contract_address, Some(t)));
        assert(matching_listings(s, status, contract_address, Some(t)) == matching_listings(
            s_,
            status,
            contract_address,
            Some(t),
        ));
    }
}

/// Every entry a descending scan returns is a table entry that satisfies
/// the scan's window.
proof fn lemma_desc_source(
    s: Seq<(OrderKey, OrderComponents)>,
    pred: spec_fn((OrderKey, OrderComponents)) -> bool,
    j: int,
)
    requires
        0 <= j < matching_orders_desc(s, pred).len(),
    ensures
        exists|i: int|
            0 <= i < s.len() && pred(#[trigger] s[i]) && s[i] == matching_orders_desc(s, pred)[j],
    decreases s.len(),
{
    let m = matching_orders_desc(s, pred);
    let s_ = s.drop_last();
    let m_ = matching_orders_desc(s_, pred);
    if pred(s.last()) {
        assert(m == seq![s.last()] + m_);
        if j == 0 {
            assert(s[s.len() - 1] == s.last());
            assert(m[0] == s.last());
        } else {
            assert(m[j] == m_[j - 1]);
            lemma_desc_source(s_, pred, j - 1);
            let i = choose|i: int|
                0 <= i < s_.len() && pred(#[trigger] s_[i]) && s_[i] == m_[j - 1];
            assert(s[i] == s_[i]);
        }
    } else {
        lemma_desc_source(s_, pred, j);
        let i = choose|i: int| 0 <= i < s_.len() && pred(#[trigger] s_[i]) && s_[i] == m_[j];
        assert(s[i] == s_[i]);
    }
}

/// Two windows that agree on every entry of the table give the same scan.
proof fn lemma_desc_congruence(
    s: Seq<(OrderKey, OrderComponents)>,
    pred1: spec_fn((OrderKey, OrderComponents)) -> bool,
    pred2: spec_fn((OrderKey, OrderComponents)) -> bool,
)
    requires
        forall|i: int| 0 <= i < s.len() ==> pred1(#[trigger] s[i]) == pred2(s[i]),
    ensures
        matching_orders_desc(s, pred1) == matching_orders_desc(s, pred2),
    decreases s.len(),
{
    if s.len() > 0 {
        let s_ = s.drop_last();
        assert(forall|i: int| 0 <= i < s_.len() ==> s_[i] == s[i]);
        lemma_desc_congruence(s_, pred1, pred2);
        assert(s[s.len() - 1] == s.last());
    }
}

/// Pagination of the by-asset offer scan has no duplication and no gap:
/// querying again with the last returned offerer as the exclusive cursor
/// yields exactly the rest of the descending result sequence.
pub proof fn lemma_nft_offer_pages_adjacent(
    s: Seq<(OrderKey, OrderComponents)>,
    nft: Nft,
    start_after: Option<User>,
    k: int,
)
    requires
        order_seq_sorted(s),
        0 <= k < matching_orders_desc(s, nft_offers_pred(nft, start_after)).len(),
    ensures
        matching_orders_desc(
            s,
            nft_offers_pred(
                nft,
                Some(matching_orders_desc(s, nft_offers_pred(nft, start_after))[k].0.0),
            ),
        ) == matching_orders_desc(s, nft_offers_pred(nft, start_after)).skip(k + 1),
    decreases s.len(),
{
    let p0 = nft_offers_pred(nft, start_after);
    let m = matching_orders_desc(s, p0);
    let s_ = s.drop_last();
    let e = s.last();
    let m_ = matching_orders_desc(s_, p0);
    assert(forall|i: int| 0 <= i < s_.len() ==> s_[i] == s[i]);
    assert(order_seq_sorted(s_));
    // Every earlier same-asset entry has a strictly smaller offerer: two
    // keys on the same asset cannot share one, or the keys would be equal.
    assert forall|i: int|
        0 <= i < s_.len() && (#[trigger] s_[i]).0.1 == nft && e.0.1 == nft implies s_[i].0.0
        < e.0.0 by {
        assert(order_key_lt(s[i].0, s[s.len() - 1].0));
    }
    if p0(e) {
        assert(m == seq![e] + m_);
        let t = m[k].0.0;
        let pt = nft_offers_pred(nft, Some(t));
        if k == 0 {
            assert(m[0] == e);
            assert(t == e.0.0);
            assert(!pt(e));
            assert forall|i: int| 0 <= i < s_.len() implies pt(#[trigger] s_[i]) == p0(s_[i]) by {
                if s_[i].0.1 == nft {
                    assert(s_[i].0.0 < t);
                }
            }
            lemma_desc_congruence(s_, pt, p0);
            assert(matching_orders_desc(s, pt) == m_);
            assert(m.skip(1) =~= m_);
        } else {
            assert(m[k] == m_[k - 1]);
            lemma_nft_offer_pages_adjacent(s_, nft, start_after, k - 1);
            lemma_desc_source(s_, p0, k - 1);
            let i = choose|i: int|
                0 <= i < s_.len() && p0(#[trigger] s_[i]) && s_[i] == m_[k - 1];
            assert(s_[i].0.1 == nft);
            assert(t < e.0.0);
            assert(!pt(e));
            assert(matching_orders_desc(s, pt) == matching_orders_desc(s_, pt));
            assert((seq![e] + m_).skip(k + 1) =~= m_.skip(k));
        }
    } else {
        assert(m == m_);
        let t = m[k].0.0;
        let pt = nft_offers_pred(nft, Some(t));
        lemma_nft_offer_pages_adjacent(s_, nft, start_after, k);
        lemma_desc_source(s_, p0, k);
        let i = choose|i: int| 0 <= i < s_.len() && p0(#[trigger] s_[i]) && s_[i] == m_[k];
        assert(s_[i].0.1 == nft);
        if e.0.1 == nft {
            assert(t < e.0.0);
        }
        assert(!pt(e));
        assert(matching_orders_desc(s, pt) == matching_orders_desc(s_, pt));
    }
}

/// Pagination of the by-offerer scan has no duplication and no gap:
/// querying again with the last returned asset key as the exclusive
/// cursor yields exactly the rest of the descending result sequence.
pub proof fn lemma_user_offer_pages_adjacent(
    s: Seq<(OrderKey, OrderComponents)>,
    user: User,
    start_after: Option<Nft>,
    k: int,
)
    requires
        order_seq_sorted(s),
        0 <= k < matching_orders_desc(s, user_offers_pred(user, start_after)).len(),
    ensures
        matching_orders_desc(
            s,
            user_offers_pred(
                user,
                Some(matching_orders_desc(s, user_offers_pred(user, start_after))[k].0.1),
            ),
        ) == matching_orders_desc(s, user_offers_pred(user, start_after)).skip(k + 1),
    decreases s.len(),
{
    let p0 = user_offers_pred(user, start_after);
    let m = matching_orders_desc(s, p0);
    let s_ = s.drop_last();
    let e = s.last();
    let m_ = matching_orders_desc(s_, p0);
    assert(forall|i: int| 0 <= i < s_.len() ==> s_[i] == s[i]);
    assert(order_seq_sorted(s_));
    // Every earlier entry of the same user targets a strictly smaller
    // asset key.
    assert forall|i: int|
        0 <= i < s_.len() && (#[trigger] s_[i]).0.0 == user && e.0.0 == user implies nft_lt(
        s_[i].0.1,
        e.0.1,
    ) by {
        assert(order_key_lt(s[i].0, s[s.len() - 1].0));
    }
    if p0(e) {
        assert(m == seq![e] + m_);
        let t = m[k].0.1;
        let pt = user_offers_pred(user, Some(t));
        if k == 0 {
            assert(m[0] == e);
            assert(t == e.0.1);
            assert(!pt(e));
            assert forall|i: int| 0 <= i < s_.len() implies pt(#[trigger] s_[i]) == p0(s_[i]) by {
                if s_[i].0.0 == user {
                    assert(nft_lt(s_[i].0.1, t));
                }
            }
            lemma_desc_congruence(s_, pt, p0);
            assert(matching_orders_desc(s, pt) == m_);
            assert(m.skip(1) =~= m_);
        } else {
            assert(m[k] == m_[k - 1]);
            lemma_user_offer_pages_adjacent(s_, user, start_after, k - 1);
            lemma_desc_source(s_, p0, k - 1);
            let i = choose|i: int|
                0 <= i < s_.len() && p0(#[trigger] s_[i]) && s_[i] == m_[k - 1];
            assert(s_[i].0.0 == user);
            assert(nft_lt(t, e.0.1));
            assert(!pt(e));
            assert(matching_orders_desc(s, pt) == matching_orders_desc(s_, pt));
            assert((seq![e] + m_).skip(k + 1) =~= m_.skip(k));
        }
    } else {
        assert(m == m_);
        let t = m[k].0.1;
        let pt = user_offers_pred(user, Some(t));
        lemma_user_offer_pages_adjacent(s_, user, start_after, k);
        lemma_desc_source(s_, p0, k);
        let i = choose|i: int| 0 <= i < s_.len() && p0(#[trigger] s_[i]) && s_[i] == m_[k];
        assert(s_[i].0.0 == user);
        if e.0.0 == user {
            assert(nft_lt(t, e.0.1));
        }
        assert(!pt(e));
        assert(matching_orders_desc(s, pt) == matching_orders_desc(s_, pt));
    }
}

} // verus!
