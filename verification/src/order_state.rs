//! Standing offers ("orders"): a buyer-initiated promise to pay a
//! fungible amount for one specific asset.

use vstd::prelude::*;
use crate::types::{Addr, Expiration, TokenId};

verus! {

/// The account that placed an order.
pub type User = Addr;

/// The asset an order targets: collection address and token id.
pub type Nft = (Addr, TokenId);

/// Uniquely identifies one offerer's standing offer on one asset.
pub type OrderKey = (User, Nft);

pub fn order_key(user_address: &Addr, contract_address: &Addr, token_id: &TokenId) -> (k: OrderKey)
    ensures
        k == (*user_address, (*contract_address, *token_id)),
{
    (*user_address, (*contract_address, *token_id))
}

/// Strict order on order keys: by offerer, then collection, then token.
pub open spec fn order_key_lt(a: OrderKey, b: OrderKey) -> bool {
    a.0 < b.0 || (a.0 == b.0 && nft_lt(a.1, b.1))
}

/// Strict order on assets: by collection, then token.
pub open spec fn nft_lt(a: Nft, b: Nft) -> bool {
    a.0 < b.0 || (a.0 == b.0 && a.1 < b.1)
}

pub fn order_key_before(a: &OrderKey, b: &OrderKey) -> (r: bool)
    ensures
        r == order_key_lt(*a, *b),
{
    a.0 < b.0 || (a.0 == b.0 && (a.1.0 < b.1.0 || (a.1.0 == b.1.0 && a.1.1 < b.1.1)))
}

/// An asset named in a command or query: a collection address and,
/// for a specific token, its id.  A missing id stands for a whole
/// collection; collection-wide offers are rejected in the current scope.
#[derive(Clone, Copy, Debug, PartialEq, Eq, Structural)]
pub struct NFT {
    pub contract_address: Addr,
    pub token_id: Option<TokenId>,
}

/// A tradable value: the asset an order wants, or the payment it brings.
#[derive(Debug, PartialEq)]
#[allow(inconsistent_fields)]
pub enum Asset {
    /// A specific token, or a whole collection when `token_id` is absent
    /// (collection-wide offers are rejected in the current scope).
    Nft { nft_address: Addr, token_id: Option<TokenId> },
    Native { denom: String, amount: u128 },
    Cw20 { token_address: Addr, amount: u128 },
}

impl Clone for Asset {
    fn clone(&self) -> (res: Asset)
        ensures
            res == *self,
    {
        match self {
            Asset::Nft { nft_address, token_id } => Asset::Nft {
                nft_address: *nft_address,
                token_id: *token_id,
            },
            Asset::Native { denom, amount } => Asset::Native {
                denom: denom.clone(),
                amount: *amount,
            },
            Asset::Cw20 { token_address, amount } => Asset::Cw20 {
                token_address: *token_address,
                amount: *amount,
            },
        }
    }
}

/// A payment-capable asset: what settlement can move.
#[derive(Debug, PartialEq)]
#[allow(inconsistent_fields)]
pub enum PaymentAsset {
    Native { denom: String, amount: u128 },
    Cw20 { token_address: Addr, amount: u128 },
}

impl Clone for PaymentAsset {
    fn clone(&self) -> (res: PaymentAsset)
        ensures
            res == *self,
    {
        match self {
            PaymentAsset::Native { denom, amount } => PaymentAsset::Native {
                denom: denom.clone(),
                amount: *amount,
            },
            PaymentAsset::Cw20 { token_address, amount } => PaymentAsset::Cw20 {
                token_address: *token_address,
                amount: *amount,
            },
        }
    }
}

/// Which side of an order an item sits on.
#[derive(Clone, Copy, Debug, PartialEq, Eq, Structural)]
pub enum Side {
    OFFER,
    CONSIDERATION,
}

/// The kind of asset an order item carries.
#[derive(Clone, Copy, Debug, PartialEq, Eq, Structural)]
pub enum ItemType {
    NATIVE,
    CW20,
    CW721,
}

/// The kind of an order.  Standing offers are the only supported kind.
#[derive(Clone, Copy, Debug, PartialEq, Eq, Structural)]
pub enum OrderType {
    OFFER,
}

/// What the offerer pays.
#[derive(Debug, PartialEq)]
pub struct OfferItem {
    pub item_type: ItemType,
    pub item: Asset,
    pub identifier_or_criteria: String,
    pub start_amount: u128,
    pub end_amount: u128,
}

impl Clone for OfferItem {
    fn clone(&self) -> (res: OfferItem)
        ensures
            res == *self,
    {
        OfferItem {
            item_type: self.item_type,
            item: self.item.clone(),
            identifier_or_criteria: self.identifier_or_criteria.clone(),
            start_amount: self.start_amount,
            end_amount: self.end_amount,
        }
    }
}

/// What the offerer wants, and who receives it.
#[derive(Debug, PartialEq)]
pub struct ConsiderationItem {
    pub item_type: ItemType,
    pub item: Asset,
    pub start_amount: u128,
    pub end_amount: u128,
    pub recipient: Addr,
}

impl Clone for ConsiderationItem {
    fn clone(&self) -> (res: ConsiderationItem)
        ensures
            res == *self,
    {
        ConsiderationItem {
            item_type: self.item_type,
            item: self.item.clone(),
            start_amount: self.start_amount,
            end_amount: self.end_amount,
            recipient: self.recipient,
        }
    }
}

pub fn offer_item(item_type: &ItemType, item: &Asset, start_amount: &u128, end_amount: &u128) -> (r:
    OfferItem)
    ensures
        r.item_type == *item_type,
        r.item == *item,
        r.identifier_or_criteria@ == Seq::<char>::empty(),
        r.start_amount == *start_amount,
        r.end_amount == *end_amount,
{
    OfferItem {
        item_type: *item_type,
        item: item.clone(),
        identifier_or_criteria: String::new(),
        start_amount: *start_amount,
        end_amount: *end_amount,
    }
}

pub fn consideration_item(
    item_type: &ItemType,
    item: &Asset,
    start_amount: &u128,
    end_amount: &u128,
    recipient: &Addr,
) -> (r: ConsiderationItem)
    ensures
        r.item_type == *item_type,
        r.item == *item,
        r.start_amount == *start_amount,
        r.end_amount == *end_amount,
        r.recipient == *recipient,
{
    ConsiderationItem {
        item_type: *item_type,
        item: item.clone(),
        start_amount: *start_amount,
        end_amount: *end_amount,
        recipient: *recipient,
    }
}

/// One standing offer: pay the single offer item for the single
/// consideration item, valid until `end_time`.
#[derive(Debug, PartialEq)]
pub struct OrderComponents {
    pub order_type: OrderType,
    pub order_id: OrderKey,
    pub offerer: User,
    pub offer: Vec<OfferItem>,
    pub consideration: Vec<ConsiderationItem>,
    pub start_time: Option<Expiration>,
    /// The expiry instant; always present on a stored order.
    pub end_time: Option<Expiration>,
}

impl OrderComponents {
    /// Equality of everything an order's contracts observe.  Two orders
    /// with the same scalar fields and the same item sequences are the
    /// same offer; `Vec` values themselves carry no useful spec equality.
    pub open spec fn spec_same(self, other: OrderComponents) -> bool {
        &&& self.order_type == other.order_type
        &&& self.order_id == other.order_id
        &&& self.offerer == other.offerer
        &&& self.offer@ == other.offer@
        &&& self.consideration@ == other.consideration@
        &&& self.start_time == other.start_time
        &&& self.end_time == other.end_time
    }
}

impl Clone for OrderComponents {
    fn clone(&self) -> (res: OrderComponents)
        ensures
            res.spec_same(*self),
    {
        let mut offer: Vec<OfferItem> = Vec::new();
        let mut i: usize = 0;
        while i < self.offer.len()
            invariant
                0 <= i <= self.offer@.len(),
                offer@ =~= self.offer@.take(i as int),
            decreases self.offer@.len() - i,
        {
            offer.push(self.offer[i].clone());
            proof {
                assert(offer@ =~= self.offer@.take(i + 1));
            }
            i = i + 1;
        }
        let mut consideration: Vec<ConsiderationItem> = Vec::new();
        let mut j: usize = 0;
        while j < self.consideration.len()
            invariant
                0 <= j <= self.consideration@.len(),
                consideration@ =~= self.consideration@.take(j as int),
            decreases self.consideration@.len() - j,
        {
            consideration.push(self.consideration[j].clone());
            proof {
                assert(consideration@ =~= self.consideration@.take(j + 1));
            }
            j = j + 1;
        }
        proof {
            assert(offer@ =~= self.offer@);
            assert(consideration@ =~= self.consideration@);
        }
        OrderComponents {
            order_type: self.order_type,
            order_id: self.order_id,
            offerer: self.offerer,
            offer,
            consideration,
            start_time: self.start_time,
            end_time: self.end_time,
        }
    }
}

/// Structural validity of a stored order: it agrees with its key, pays
/// with exactly one fungible-token item, wants exactly one specific
/// asset routed back to the offerer, and carries an expiry.
pub open spec fn order_wf(key: OrderKey, o: OrderComponents) -> bool {
    &&& o.order_type == OrderType::OFFER
    &&& o.order_id == key
    &&& o.offerer == key.0
    &&& o.offer@.len() == 1
    &&& o.consideration@.len() == 1
    &&& o.offer@[0].item is Cw20
    &&& o.consideration@[0].item == (Asset::Nft { nft_address: key.1.0, token_id: Some(key.1.1) })
    &&& o.consideration@[0].recipient == key.0
    &&& o.end_time is Some
}

} // verus!
