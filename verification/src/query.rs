//! The read paths: point lookups and the paginated range queries over
//! listings and standing offers.

use vstd::prelude::*;
use crate::error::ContractError;
use crate::listing_store::{matching_listings, MAX_QUERY_LIMIT};
use crate::msg::{ListingsResponse, OffersResponse};
use crate::order_state::{Nft, OrderComponents, OrderKey, User, NFT};
use crate::order_store::{nft_offers_pred, range_result_ok, user_offers_pred};
use crate::state::{AuctionConfig, Listing, MarketplaceContract};
use crate::types::{Addr, TokenId};

verus! {

/// The result cap a caller-supplied limit is reduced to.
pub open spec fn spec_effective_limit(limit: Option<u32>) -> usize {
    let asked = match limit {
        Some(l) => l as usize,
        None => MAX_QUERY_LIMIT,
    };
    if asked < MAX_QUERY_LIMIT {
        asked
    } else {
        MAX_QUERY_LIMIT
    }
}

/// Reduce a caller-supplied limit to what the server will honour.
pub fn effective_limit(limit: Option<u32>) -> (r: usize)
    ensures
        r == spec_effective_limit(limit),
        r <= MAX_QUERY_LIMIT,
{
    let asked = match limit {
        Some(l) => l as usize,
        None => MAX_QUERY_LIMIT,
    };
    if asked < MAX_QUERY_LIMIT {
        asked
    } else {
        MAX_QUERY_LIMIT
    }
}

impl MarketplaceContract {
    /// Look one listing up by its key.
    pub fn query_listing(&self, contract_address: Addr, token_id: TokenId) -> (r: Result<
        Listing,
        ContractError,
    >)
        requires
            self.wf(),
        ensures
            r is Ok <==> self.listings.contains_key((contract_address, token_id)),
            r matches Ok(l) ==> l == self.listings.spec_get((contract_address, token_id)),
            r matches Err(e) ==> e is NotFound,
    {
        let key = crate::state::listing_key(&contract_address, &token_id);
        match self.listings.get(key) {
            Some(l) => Ok(l.clone()),
            None => Err(ContractError::NotFound {}),
        }
    }

    /// Listings with the given status name in one collection, ascending
    /// by token id, strictly after the cursor, capped at
    /// `MAX_QUERY_LIMIT` results whatever limit the caller asks for.
    pub fn query_listings_by_contract_address(
        &self,
        status: String,
        contract_address: Addr,
        start_after: Option<TokenId>,
        limit: Option<u32>,
    ) -> (r: ListingsResponse)
        requires
            self.wf(),
        ensures
            ({
                let m = matching_listings(
                    self.listings.entry_seq(),
                    status@,
                    contract_address,
                    start_after,
                );
                let cap = spec_effective_limit(limit) as int;
                &&& r.listings@.len() == if m.len() <= cap {
                    m.len() as int
                } else {
                    cap
                }
                &&& r.listings@ == m.take(r.listings@.len() as int)
            }),
    {
        let limit = effective_limit(limit);
        let listings = self.listings.range_by_status_and_collection(
            &status,
            contract_address,
            start_after,
            limit,
        );
        ListingsResponse { listings }
    }

    /// The registered auction handlers' addresses, ascending, at most 30.
    pub fn query_auction_contracts(&self) -> (r: Vec<Addr>)
        requires
            self.wf(),
        ensures
            r@.len() == if self.auction_contracts.entry_seq().len() <= 30 {
                self.auction_contracts.entry_seq().len() as int
            } else {
                30int
            },
            forall|j: int|
                0 <= j < r@.len() ==> r@[j] == (#[trigger] self.auction_contracts.entry_seq()[j]).0,
    {
        self.auction_contracts.keys_page()
    }

    /// Whether a configuration may be validated by the registered handler
    /// at `contract_address`.  The handler must be registered; the actual
    /// delegation is reserved, so a registered handler answers yes.
    pub fn query_validate_auction_config(
        &self,
        contract_address: Addr,
        _code_id: u32,
        _auction_config: &AuctionConfig,
    ) -> (r: Result<bool, ContractError>)
        requires
            self.wf(),
        ensures
            r is Ok <==> self.auction_contracts.contains_key(contract_address),
            r matches Ok(v) ==> v == true,
            r matches Err(e) ==> e is NotFound,
    {
        match self.auction_contracts.get(contract_address) {
            Some(_) => Ok(true),
            None => Err(ContractError::NotFound {}),
        }
    }

    /// Look one standing offer up by (asset, offerer).
    pub fn query_offer(&self, contract_address: Addr, token_id: TokenId, offerer: Addr) -> (r:
        Result<OrderComponents, ContractError>)
        requires
            self.wf(),
        ensures
            r is Ok <==> self.offers.contains_key((offerer, (contract_address, token_id))),
            r matches Ok(o) ==> o.spec_same(
                self.offers.spec_get((offerer, (contract_address, token_id))),
            ),
            r matches Err(e) ==> e is NotFound,
    {
        let key = crate::order_state::order_key(&offerer, &contract_address, &token_id);
        match self.offers.get(key) {
            Some(o) => Ok(o.clone()),
            None => Err(ContractError::NotFound {}),
        }
    }

    /// All standing offers on one asset, highest offerer first, strictly
    /// below the cursor when one is given, capped at 30 results.
    pub fn query_nft_offers(
        &self,
        contract_address: Addr,
        token_id: TokenId,
        start_after_offerer: Option<Addr>,
        limit: Option<u32>,
    ) -> (r: OffersResponse)
        requires
            self.wf(),
        ensures
            range_result_ok(
                self.offers.entry_seq(),
                nft_offers_pred((contract_address, token_id), start_after_offerer),
                spec_effective_limit(limit),
                r.offers@,
            ),
    {
        let limit = effective_limit(limit);
        let offers = self.offers.range_offers_by_nft(
            (contract_address, token_id),
            start_after_offerer,
            limit,
        );
        OffersResponse { offers }
    }

    /// All of one user's standing offers, highest asset key first,
    /// strictly below the cursor when one is given, capped at 30 results.
    /// A cursor must name a specific token.
    pub fn query_user_offers(
        &self,
        offerer: Addr,
        start_after_nft: Option<NFT>,
        limit: Option<u32>,
    ) -> (r: OffersResponse)
        requires
            self.wf(),
            start_after_nft matches Some(n) ==> n.token_id is Some,
        ensures
            range_result_ok(
                self.offers.entry_seq(),
                user_offers_pred(offerer, spec_nft_cursor(start_after_nft)),
                spec_effective_limit(limit),
                r.offers@,
            ),
    {
        let limit = effective_limit(limit);
        let cursor: Option<Nft> = match start_after_nft {
            Some(n) => match n.token_id {
                Some(t) => Some((n.contract_address, t)),
                None => None,
            },
            None => None,
        };
        let offers = self.offers.range_offers_by_user(offerer, cursor, limit);
        OffersResponse { offers }
    }
}

/// The (collection, token) pair a cursor names.
pub open spec fn spec_nft_cursor(start_after_nft: Option<NFT>) -> Option<Nft> {
    match start_after_nft {
        Some(n) => match n.token_id {
            Some(t) => Some((n.contract_address, t)),
            None => None,
        },
        None => None,
    }
}

} // verus!
