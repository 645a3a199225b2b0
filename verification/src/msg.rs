//! Typed commands, queries, and their answer shapes.  The host parses
//! whatever wire format it speaks into these and serializes the answers
//! back; the engine only ever sees the typed values.

use vstd::prelude::*;
use crate::order_state::{OrderComponents, NFT, Asset};
use crate::royalty::RoyaltiesInfoResponse;
use crate::state::{AuctionConfig, AuctionContract, Config, Listing};
use crate::types::{Addr, Expiration, TokenId};

verus! {

/// What instantiation needs: the configuration owner.
#[derive(Clone, Copy, Debug, PartialEq, Eq, Structural)]
pub struct InstantiateMsg {
    pub owner: Addr,
}

/// A state-mutating command.
#[derive(Debug)]
#[allow(inconsistent_fields)]
pub enum ExecuteMsg {
    /// List an asset for sale.
    ListNft { contract_address: Addr, token_id: TokenId, auction_config: AuctionConfig },
    /// Buy a listed asset.
    Buy { contract_address: Addr, token_id: TokenId },
    /// Cancel a listed asset.
    Cancel { contract_address: Addr, token_id: TokenId },
    /// Register an auction handler.
    AddAuctionContract { auction_contract: AuctionContract },
    /// Drop an auction handler's registration.
    RemoveAuctionContract { contract_address: Addr },
    /// Place a standing offer: pay `funds` for `nft` until `end_time`.
    OfferNft { nft: NFT, funds: Asset, end_time: Expiration },
    /// Accept a standing offer on an asset the caller owns.
    AcceptNftOffer { offerer: Addr, nft: NFT },
    /// Withdraw the caller's standing offer on one asset.
    CancelNftOffer { nft: NFT },
    /// Withdraw every standing offer the caller has placed.
    CancelAllOffer {},
}

/// A read-only query.
#[derive(Debug)]
#[allow(inconsistent_fields)]
pub enum QueryMsg {
    /// The configuration record.
    Config {},
    /// Ongoing listings of one collection, paginated.
    ListingsByContractAddress {
        contract_address: Addr,
        start_after: Option<TokenId>,
        limit: Option<u32>,
    },
    /// One listing by key.
    Listing { contract_address: Addr, token_id: TokenId },
    /// The registered auction handlers.
    AuctionContracts {},
    /// Whether a configuration could be validated by a registered handler.
    ValidateAuctionConfig { contract_address: Addr, code_id: u32, auction_config: AuctionConfig },
    /// One standing offer by (asset, offerer).
    Offer { contract_address: Addr, token_id: TokenId, offerer: Addr },
    /// The standing offers on one asset, paginated.
    NftOffers {
        contract_address: Addr,
        token_id: TokenId,
        start_after_offerer: Option<Addr>,
        limit: Option<u32>,
    },
    /// One user's standing offers, paginated.
    UserOffers { offerer: Addr, start_after_nft: Option<NFT>, limit: Option<u32> },
}

/// Nothing is migrated in the current scope.
#[derive(Clone, Copy, Debug, PartialEq, Eq, Structural)]
pub struct MigrateMsg {}

/// Answer of the listing range query.
#[derive(Debug)]
pub struct ListingsResponse {
    pub listings: Vec<Listing>,
}

/// Answer of a validation query.
#[derive(Clone, Copy, Debug, PartialEq, Eq, Structural)]
pub struct ValidateResponse {
    pub valid: bool,
}

/// Answer of the offer range queries.
#[derive(Debug)]
pub struct OffersResponse {
    pub offers: Vec<OrderComponents>,
}

/// A typed query answer; the host serializes it.
#[derive(Debug)]
#[allow(inconsistent_fields)]
pub enum QueryAnswer {
    Config(Config),
    Listings(ListingsResponse),
    Listing(Listing),
    AuctionContracts(Vec<Addr>),
    Validate(ValidateResponse),
    Offer(OrderComponents),
    Offers(OffersResponse),
}

/// The collaborator answers the host gathered before dispatching a
/// command: custody ownership and approval for the asset at hand, the
/// royalty lookup for the sale at hand, and the offerer's fungible-token
/// allowance and balance.  `None` always stands for a failed lookup.
#[derive(Clone, Copy, Debug, PartialEq, Eq, Structural)]
pub struct CollaboratorAnswers {
    pub owner_of: Option<Addr>,
    pub approval: Option<Expiration>,
    pub royalty: Option<RoyaltiesInfoResponse>,
    pub allowance: Option<u128>,
    pub balance: Option<u128>,
}

} // verus!
