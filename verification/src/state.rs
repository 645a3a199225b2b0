//! Listings, their lifecycle status, auction configurations, and the
//! global configuration record.

use vstd::prelude::*;
use crate::listing_store::{listings, ListingStore};
use crate::order_store::{orders, OrderStore};
use crate::registry::{auction_contracts, AuctionContractStore};
use crate::types::{Addr, BlockInfo, Coin, Expiration, TokenId};

verus! {

/// Version tag of a pluggable auction handler, recorded with a listing at
/// creation time so the handler can later be matched against the registry.
#[derive(Debug, PartialEq)]
pub struct AuctionType {
    pub name: String,
    /// Version identifier of the deployed handler.
    pub code_id: u32,
    /// Address of the deployed handler.
    pub contract_address: Addr,
}

impl Clone for AuctionType {
    fn clone(&self) -> (res: AuctionType)
        ensures
            res == *self,
    {
        AuctionType {
            name: self.name.clone(),
            code_id: self.code_id,
            contract_address: self.contract_address,
        }
    }
}

/// How a listed asset is to be sold.
#[derive(Debug, PartialEq)]
pub enum AuctionConfig {
    /// Sell for exactly `price`, optionally only within a time window.
    /// When both bounds are present the start must lie strictly before the
    /// end.
    FixedPrice { price: Coin, start_time: Option<Expiration>, end_time: Option<Expiration> },
    /// A pluggable handler scheme.  Reserved: validation always rejects it
    /// in the current scope.
    Other { auction: AuctionType, config: String },
}

impl Clone for AuctionConfig {
    fn clone(&self) -> (res: AuctionConfig)
        ensures
            res == *self,
    {
        match self {
            AuctionConfig::FixedPrice { price, start_time, end_time } => AuctionConfig::FixedPrice {
                price: price.clone(),
                start_time: *start_time,
                end_time: *end_time,
            },
            AuctionConfig::Other { auction, config } => AuctionConfig::Other {
                auction: auction.clone(),
                config: config.clone(),
            },
        }
    }
}

/// Lifecycle status of a listing.  `Sold` and `Cancelled` are terminal.
#[derive(Copy, Clone, Debug, PartialEq)]
pub enum ListingStatus {
    Ongoing {},
    Sold { buyer: Addr },
    Cancelled { cancelled_at: u64 },
}

impl ListingStatus {
    /// The name under which listings of this status are grouped for range
    /// queries.
    pub open spec fn spec_name(self) -> Seq<char> {
        match self {
            ListingStatus::Ongoing {} => "ongoing"@,
            ListingStatus::Sold { .. } => "ended"@,
            ListingStatus::Cancelled { .. } => "cancelled"@,
        }
    }

    pub fn name(&self) -> (r: String)
        ensures
            r@ == self.spec_name(),
    {
        match self {
            ListingStatus::Ongoing {} => "ongoing".to_owned(),
            ListingStatus::Sold { .. } => "ended".to_owned(),
            ListingStatus::Cancelled { .. } => "cancelled".to_owned(),
        }
    }

    pub open spec fn is_ongoing(self) -> bool {
        self is Ongoing
    }
}

/// A seller's open offer to sell one asset under a given auction policy.
#[derive(Debug, PartialEq)]
pub struct Listing {
    /// Collection contract that holds the token.
    pub contract_address: Addr,
    pub token_id: TokenId,
    pub auction_config: AuctionConfig,
    pub seller: Addr,
    /// Set when the listing is sold.
    pub buyer: Option<Addr>,
    pub status: ListingStatus,
}

impl Listing {
    pub open spec fn spec_is_active(self) -> bool {
        self.status.is_ongoing()
    }

    pub fn is_active(&self) -> (r: bool)
        ensures
            r == self.spec_is_active(),
    {
        match self.status {
            ListingStatus::Ongoing {} => true,
            _ => false,
        }
    }

    /// An ongoing fixed-price listing whose end time has passed is expired.
    /// Terminal listings are never reported as expired.
    pub open spec fn spec_is_expired(self, block: BlockInfo) -> bool {
        self.status.is_ongoing() && match self.auction_config {
            AuctionConfig::FixedPrice { end_time, .. } => match end_time {
                Some(time) => time.spec_is_expired(block),
                None => false,
            },
            AuctionConfig::Other { .. } => false,
        }
    }

    pub fn is_expired(&self, block: &BlockInfo) -> (r: bool)
        ensures
            r == self.spec_is_expired(*block),
    {
        match self.status {
            ListingStatus::Ongoing {} => match &self.auction_config {
                AuctionConfig::FixedPrice { end_time, .. } => match end_time {
                    Some(time) => time.is_expired(block),
                    None => false,
                },
                AuctionConfig::Other { .. } => false,
            },
            _ => false,
        }
    }
}

impl Clone for Listing {
    fn clone(&self) -> (res: Listing)
        ensures
            res == *self,
    {
        Listing {
            contract_address: self.contract_address,
            token_id: self.token_id,
            auction_config: self.auction_config.clone(),
            seller: self.seller,
            buyer: self.buyer,
            status: self.status,
        }
    }
}

/// Globally unique identity of a listing slot.
pub type ListingKey = (Addr, TokenId);

pub fn listing_key(contract_address: &Addr, token_id: &TokenId) -> (k: ListingKey)
    ensures
        k == (*contract_address, *token_id),
{
    (*contract_address, *token_id)
}

/// Strict order on listing keys: by collection address, then by token id.
pub open spec fn listing_key_lt(a: ListingKey, b: ListingKey) -> bool {
    a.0 < b.0 || (a.0 == b.0 && a.1 < b.1)
}

pub fn listing_key_before(a: &ListingKey, b: &ListingKey) -> (r: bool)
    ensures
        r == listing_key_lt(*a, *b),
{
    a.0 < b.0 || (a.0 == b.0 && a.1 < b.1)
}

/// Global configuration, loaded once per operation.
#[derive(Clone, Copy, Debug, PartialEq, Eq, Structural)]
pub struct Config {
    pub owner: Addr,
}

/// Whether a registered auction handler may currently be used.
#[derive(Debug, PartialEq)]
pub enum AuctionContractStatus {
    Enable,
    Disable { reason: String },
}

impl Clone for AuctionContractStatus {
    fn clone(&self) -> (res: AuctionContractStatus)
        ensures
            res == *self,
    {
        match self {
            AuctionContractStatus::Enable => AuctionContractStatus::Enable,
            AuctionContractStatus::Disable { reason } => AuctionContractStatus::Disable {
                reason: reason.clone(),
            },
        }
    }
}

/// A registered auction handler.  Its `code_id` is a system-wide unique
/// version tag.
#[derive(Debug, PartialEq)]
pub struct AuctionContract {
    pub contract_address: Addr,
    pub code_id: u32,
    pub name: String,
    pub status: AuctionContractStatus,
}

impl Clone for AuctionContract {
    fn clone(&self) -> (res: AuctionContract)
        ensures
            res == *self,
    {
        AuctionContract {
            contract_address: self.contract_address,
            code_id: self.code_id,
            name: self.name.clone(),
            status: self.status.clone(),
        }
    }
}

/// Key of the auction-handler registry.
pub type AuctionContractKey = Addr;

/// The whole persistent state of the marketplace: the configuration
/// record, the listing table, the handler registry, and the standing
/// offers.
pub struct MarketplaceContract {
    /// Set once at instantiation; operations that need it fail with
    /// `NotFound` until then.
    pub config: Option<Config>,
    pub listings: ListingStore,
    pub auction_contracts: AuctionContractStore,
    pub offers: OrderStore,
}

impl MarketplaceContract {
    /// Every store is well-formed.
    pub open spec fn wf(self) -> bool {
        &&& self.listings.wf()
        &&& self.auction_contracts.wf()
        &&& self.offers.wf()
    }
}

impl Default for MarketplaceContract {
    fn default() -> (r: MarketplaceContract)
        ensures
            r.wf(),
            r.config is None,
            r.listings.as_map() == Map::<ListingKey, Listing>::empty(),
            r.listings.entry_seq() == Seq::<(ListingKey, Listing)>::empty(),
            r.auction_contracts.as_map() == Map::<
                AuctionContractKey,
                AuctionContract,
            >::empty(),
            r.offers.as_map() == Map::<
                crate::order_state::OrderKey,
                crate::order_state::OrderComponents,
            >::empty(),
            r.offers.entry_seq() == Seq::<
                (crate::order_state::OrderKey, crate::order_state::OrderComponents),
            >::empty(),
    {
        MarketplaceContract {
            config: None,
            listings: listings(),
            auction_contracts: auction_contracts(),
            offers: orders(),
        }
    }
}

/// A fresh marketplace with empty stores and no configuration.
pub fn contract() -> (r: MarketplaceContract)
    ensures
        r.wf(),
        r.config is None,
        r.listings.as_map() == Map::<ListingKey, Listing>::empty(),
        r.listings.entry_seq() == Seq::<(ListingKey, Listing)>::empty(),
        r.auction_contracts.as_map() == Map::<AuctionContractKey, AuctionContract>::empty(),
        r.offers.as_map() == Map::<
            crate::order_state::OrderKey,
            crate::order_state::OrderComponents,
        >::empty(),
        r.offers.entry_seq() == Seq::<
            (crate::order_state::OrderKey, crate::order_state::OrderComponents),
        >::empty(),
{
    MarketplaceContract::default()
}

} // verus!
